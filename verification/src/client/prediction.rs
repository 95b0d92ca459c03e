//! Client-side prediction bookkeeping: local commands wait until the server
//! acknowledges them, and are batched into outbound packets at a fixed rate.
use vstd::prelude::*;

use std::collections::VecDeque;

use crate::client::protocol::{InputPacket, InputSeq, PlayerInputCmd};

verus! {

/// Nanoseconds per second.
pub const NANOS_PER_SECOND: u64 = 1_000_000_000;

/// How many send intervals of frame time are banked at most.
pub const MAX_BANKED_INTERVALS: u64 = 4;

/// Abstract packet: newest sequence number and the commands, oldest first.
pub open spec fn packet_view(packet: InputPacket) -> (InputSeq, Seq<PlayerInputCmd>) {
    (packet.newest_seq, packet.commands@)
}

/// Number of leading commands that `ack` covers.
pub open spec fn acked_prefix(pending: Seq<PlayerInputCmd>, ack: InputSeq) -> nat
    decreases pending.len(),
{
    if pending.len() == 0 || pending[0].seq > ack {
        0
    } else {
        1 + acked_prefix(pending.drop_first(), ack)
    }
}

/// The packet built from the pending commands: the newest one's number and
/// the newest `max_commands` commands, oldest first; none when nothing is pending.
pub open spec fn packet_from(pending: Seq<PlayerInputCmd>, max_commands: nat) -> Option<(InputSeq, Seq<PlayerInputCmd>)> {
    if pending.len() == 0 {
        None
    } else {
        let keep = if pending.len() < max_commands {
            pending.len()
        } else {
            max_commands
        };
        Some((pending.last().seq, pending.subrange(pending.len() - keep, pending.len() as int)))
    }
}

/// Send interval for a send rate: a second divided by the rate (a rate of 0
/// counts as 1), at least one nanosecond.  This is the exact quotient in
/// whole nanoseconds, rounded down; a period taken from a single-precision
/// reciprocal of the rate can differ from it by a few nanoseconds (at 60 Hz
/// 16,666,666 ns here against about 16,666,668 ns), so commands that fall
/// due within those nanoseconds of a period's end are sent one frame apart
/// from such a timer.  `ClientPredictionState::with_send_interval` takes such
/// a period as it is.
pub open spec fn interval_for_rate(send_rate_hz: u32) -> nat {
    let hz = if send_rate_hz < 1 {
        1
    } else {
        send_rate_hz
    };
    let interval = NANOS_PER_SECOND as int / hz as int;
    if interval < 1 {
        1
    } else {
        interval as nat
    }
}

/// Abstract prediction state.
pub ghost struct PredictionView {
    pub pending: Seq<PlayerInputCmd>,
    pub outbound: Seq<(InputSeq, Seq<PlayerInputCmd>)>,
    pub send_interval: nat,
    pub send_accumulator: nat,
    pub max_commands: nat,
    pub last_acked_seq: InputSeq,
    pub last_sent_seq: InputSeq,
}

#[derive(Debug)]
pub struct ClientPredictionState {
    pending_inputs: VecDeque<PlayerInputCmd>,
    outbound_packets: VecDeque<InputPacket>,
    send_interval_nanos: u64,
    send_accumulator_nanos: u64,
    max_commands_per_packet: usize,
    last_acked_seq: InputSeq,
    last_sent_seq: InputSeq,
}

impl View for ClientPredictionState {
    type V = PredictionView;

    closed spec fn view(&self) -> PredictionView {
        PredictionView {
            pending: self.pending_inputs@,
            outbound: self.outbound_packets@.map_values(|p: InputPacket| packet_view(p)),
            send_interval: self.send_interval_nanos as nat,
            send_accumulator: self.send_accumulator_nanos as nat,
            max_commands: self.max_commands_per_packet as nat,
            last_acked_seq: self.last_acked_seq,
            last_sent_seq: self.last_sent_seq,
        }
    }
}

/// The interval lies in 1ns..=1s, at least one command fits a packet, and
/// less than one interval of frame time is banked between ticks.
pub open spec fn prediction_wf(v: PredictionView) -> bool {
    &&& 1 <= v.send_interval <= NANOS_PER_SECOND
    &&& v.max_commands >= 1
    &&& v.send_accumulator < v.send_interval
}

impl ClientPredictionState {
    proof fn lemma_outbound_view(&self)
        ensures
            self@.outbound.len() == self.outbound_packets@.len(),
            forall|i: int| 0 <= i < self.outbound_packets@.len() ==> #[trigger] self@.outbound[i] == packet_view(self.outbound_packets@[i]),
    {
    }

    /// A fresh state sending `send_rate_hz` packets a second (at least one),
    /// each with up to `max_commands_per_packet` commands (at least one).
    pub fn new(send_rate_hz: u32, max_commands_per_packet: usize) -> (s: Self)
        ensures
            prediction_wf(s@),
            s@.pending.len() == 0,
            s@.outbound.len() == 0,
            s@.send_interval == interval_for_rate(send_rate_hz),
            s@.send_accumulator == 0,
            s@.max_commands == if max_commands_per_packet < 1 {
                1
            } else {
                max_commands_per_packet as nat
            },
            s@.last_acked_seq == 0,
            s@.last_sent_seq == 0,
    {
        let clamped_send_hz = if send_rate_hz < 1 {
            1
        } else {
            send_rate_hz
        };
        let raw_interval = NANOS_PER_SECOND / (clamped_send_hz as u64);
        let send_interval_nanos = if raw_interval < 1 {
            1
        } else {
            raw_interval
        };
        let s = ClientPredictionState {
            pending_inputs: VecDeque::new(),
            outbound_packets: VecDeque::new(),
            send_interval_nanos,
            send_accumulator_nanos: 0,
            max_commands_per_packet: if max_commands_per_packet < 1 {
                1
            } else {
                max_commands_per_packet
            },
            last_acked_seq: 0,
            last_sent_seq: 0,
        };
        proof {
            assert(s@.outbound =~= Seq::<(InputSeq, Seq<PlayerInputCmd>)>::empty());
        }
        s
    }

    /// A fresh state whose send period is `send_interval_nanos` (a period
    /// worked out elsewhere, such as from a single-precision reciprocal of a
    /// send rate), each packet with up to `max_commands_per_packet` commands
    /// (at least one).
    pub fn with_send_interval(send_interval_nanos: u64, max_commands_per_packet: usize) -> (s: Self)
        requires
            1 <= send_interval_nanos <= NANOS_PER_SECOND,
        ensures
            prediction_wf(s@),
            s@.pending.len() == 0,
            s@.outbound.len() == 0,
            s@.send_interval == send_interval_nanos,
            s@.send_accumulator == 0,
            s@.max_commands == if max_commands_per_packet < 1 {
                1
            } else {
                max_commands_per_packet as nat
            },
            s@.last_acked_seq == 0,
            s@.last_sent_seq == 0,
    {
        let s = ClientPredictionState {
            pending_inputs: VecDeque::new(),
            outbound_packets: VecDeque::new(),
            send_interval_nanos,
            send_accumulator_nanos: 0,
            max_commands_per_packet: if max_commands_per_packet < 1 {
                1
            } else {
                max_commands_per_packet
            },
            last_acked_seq: 0,
            last_sent_seq: 0,
        };
        proof {
            assert(s@.outbound =~= Seq::<(InputSeq, Seq<PlayerInputCmd>)>::empty());
        }
        s
    }

    /// Queues a local command until the server acknowledges it.
    pub fn record_local_input(&mut self, cmd: PlayerInputCmd)
        ensures
            final(self)@ == (PredictionView { pending: old(self)@.pending.push(cmd), ..old(self)@ }),
    {
        self.pending_inputs.push_back(cmd);
        proof {
            assert(self@.outbound =~= old(self)@.outbound);
        }
    }

    /// Records that the server has applied every command up to `ack_seq`:
    /// a newer acknowledgement drops the leading pending commands it covers;
    /// an older or repeated one changes nothing.
    pub fn acknowledge_through(&mut self, ack_seq: InputSeq)
        ensures
            ack_seq <= old(self)@.last_acked_seq ==> final(self)@ == old(self)@,
            ack_seq > old(self)@.last_acked_seq ==> final(self)@ == (PredictionView {
                pending: old(self)@.pending.skip(acked_prefix(old(self)@.pending, ack_seq) as int),
                last_acked_seq: ack_seq,
                ..old(self)@
            }),
    {
        if ack_seq <= self.last_acked_seq {
            return;
        }
        self.last_acked_seq = ack_seq;
        let ghost start = self.pending_inputs@;
        let ghost mut dropped: int = 0;
        while self.pending_inputs.len() > 0 && self.pending_inputs[0].seq <= ack_seq
            invariant
                0 <= dropped <= start.len(),
                self.pending_inputs@ == start.skip(dropped),
                acked_prefix(start, ack_seq) == dropped + acked_prefix(start.skip(dropped), ack_seq),
                self.outbound_packets@ == old(self).outbound_packets@,
                self.send_interval_nanos == old(self).send_interval_nanos,
                self.send_accumulator_nanos == old(self).send_accumulator_nanos,
                self.max_commands_per_packet == old(self).max_commands_per_packet,
                self.last_sent_seq == old(self).last_sent_seq,
                self.last_acked_seq == ack_seq,
            decreases self.pending_inputs@.len(),
        {
            proof {
                assert(start.skip(dropped).drop_first() =~= start.skip(dropped + 1));
            }
            let _ = self.pending_inputs.pop_front();
            proof {
                dropped = dropped + 1;
            }
        }
        proof {
            assert(self@.outbound =~= old(self)@.outbound);
        }
    }

    /// Banks `frame_dt_nanos` of frame time (up to four send intervals in all)
    /// and, for every whole interval banked, stages a packet of the newest
    /// pending commands.
    pub fn tick_network_send(&mut self, frame_dt_nanos: u64)
        requires
            prediction_wf(old(self)@),
        ensures
            prediction_wf(final(self)@),
            ({
                let v = old(self)@;
                let cap: nat = (MAX_BANKED_INTERVALS * v.send_interval) as nat;
                let banked: nat = if v.send_accumulator + frame_dt_nanos > cap {
                    cap
                } else {
                    (v.send_accumulator + frame_dt_nanos) as nat
                };
                let sends: nat = banked / v.send_interval;
                &&& final(self)@.send_accumulator == banked % v.send_interval
                &&& final(self)@.pending == v.pending
                &&& final(self)@.send_interval == v.send_interval
                &&& final(self)@.max_commands == v.max_commands
                &&& final(self)@.last_acked_seq == v.last_acked_seq
                &&& match packet_from(v.pending, v.max_commands) {
                    Some(packet) => {
                        &&& final(self)@.outbound == v.outbound + Seq::new(sends, |i: int| packet)
                        &&& final(self)@.last_sent_seq == if sends > 0 {
                            packet.0
                        } else {
                            v.last_sent_seq
                        }
                    },
                    None => {
                        &&& final(self)@.outbound == v.outbound
                        &&& final(self)@.last_sent_seq == v.last_sent_seq
                    },
                }
            }),
    {
        proof {
            self.lemma_outbound_view();
        }
        let interval = self.send_interval_nanos;
        let cap = interval * MAX_BANKED_INTERVALS;
        let acc = self.send_accumulator_nanos;
        let banked = if frame_dt_nanos > cap - acc {
            cap
        } else {
            acc + frame_dt_nanos
        };
        let ghost v = self@;
        let ghost packet = packet_from(v.pending, v.max_commands);
        let ghost mut sent: nat = 0;
        let mut remaining = banked;
        let mut outbound: VecDeque<InputPacket> = VecDeque::new();
        std::mem::swap(&mut outbound, &mut self.outbound_packets);
        let mut last_sent = self.last_sent_seq;
        proof {
            vstd::arithmetic::div_mod::lemma_fundamental_div_mod(banked as int, interval as int);
            assert(outbound@.map_values(|p: InputPacket| packet_view(p)) =~= v.outbound);
        }
        while remaining >= interval
            invariant
                interval == v.send_interval,
                1 <= interval,
                remaining + sent * interval == banked,
                v.pending == self.pending_inputs@,
                v.max_commands == self.max_commands_per_packet,
                packet == packet_from(v.pending, v.max_commands),
                match packet {
                    Some(p) => {
                        &&& outbound@.map_values(|q: InputPacket| packet_view(q)) == v.outbound + Seq::new(sent, |i: int| p)
                        &&& last_sent == if sent > 0 {
                            p.0
                        } else {
                            v.last_sent_seq
                        }
                    },
                    None => {
                        &&& outbound@.map_values(|q: InputPacket| packet_view(q)) == v.outbound
                        &&& last_sent == v.last_sent_seq
                    },
                },
            decreases remaining,
        {
            remaining = remaining - interval;
            let built = self.build_packet_from_pending();
            match built {
                Some(p) => {
                    last_sent = p.newest_seq;
                    let ghost before = outbound@;
                    outbound.push_back(p);
                    proof {
                        let pk = packet->0;
                        let old_map = before.map_values(|q: InputPacket| packet_view(q));
                        let new_map = outbound@.map_values(|q: InputPacket| packet_view(q));
                        assert(old_map == v.outbound + Seq::new(sent, |i: int| pk));
                        assert(new_map =~= old_map.push(packet_view(p)));
                        assert(Seq::new(sent + 1, |i: int| pk) =~= Seq::new(sent, |i: int| pk).push(pk));
                        assert(new_map =~= v.outbound + Seq::new(sent + 1, |i: int| pk));
                    }
                },
                None => {},
            }
            proof {
                assert(remaining + (sent + 1) * interval == banked) by (nonlinear_arith)
                    requires
                        remaining + interval + sent * interval == banked,
                ;
                sent = sent + 1;
            }
        }
        proof {
            vstd::arithmetic::div_mod::lemma_fundamental_div_mod_converse(banked as int, interval as int, sent as int, remaining as int);
        }
        self.outbound_packets = outbound;
        self.last_sent_seq = last_sent;
        self.send_accumulator_nanos = remaining;
    }

    /// Takes the oldest staged packet.
    pub fn pop_outbound_packet(&mut self) -> (packet: Option<InputPacket>)
        ensures
            old(self)@.outbound.len() == 0 ==> packet is None && final(self)@ == old(self)@,
            old(self)@.outbound.len() > 0 ==> {
                &&& packet matches Some(p) && packet_view(p) == old(self)@.outbound[0]
                &&& final(self)@ == (PredictionView { outbound: old(self)@.outbound.drop_first(), ..old(self)@ })
            },
    {
        proof {
            self.lemma_outbound_view();
        }
        let packet = self.outbound_packets.pop_front();
        proof {
            assert(self@.outbound =~= old(self)@.outbound.drop_first() || old(self)@.outbound.len() == 0);
            if old(self)@.outbound.len() == 0 {
                assert(self@.outbound =~= old(self)@.outbound);
            }
        }
        packet
    }

    pub fn pending_inputs(&self) -> (pending: &VecDeque<PlayerInputCmd>)
        ensures
            pending@ == self@.pending,
    {
        &self.pending_inputs
    }

    pub fn pending_input_count(&self) -> (n: usize)
        ensures
            n == self@.pending.len(),
    {
        self.pending_inputs.len()
    }

    pub fn staged_packet_count(&self) -> (n: usize)
        ensures
            n == self@.outbound.len(),
    {
        self.outbound_packets.len()
    }

    pub fn last_sent_seq(&self) -> (seq: InputSeq)
        ensures
            seq == self@.last_sent_seq,
    {
        self.last_sent_seq
    }

    pub fn last_acked_seq(&self) -> (seq: InputSeq)
        ensures
            seq == self@.last_acked_seq,
    {
        self.last_acked_seq
    }

    fn build_packet_from_pending(&self) -> (packet: Option<InputPacket>)
        ensures
            match packet_from(self@.pending, self@.max_commands) {
                Some(p) => packet matches Some(q) && packet_view(q) == p,
                None => packet is None,
            },
    {
        let len = self.pending_inputs.len();
        if len == 0 {
            return None;
        }
        let newest = self.pending_inputs[len - 1].seq;
        let keep = if len < self.max_commands_per_packet {
            len
        } else {
            self.max_commands_per_packet
        };
        let first = len - keep;
        let mut commands: Vec<PlayerInputCmd> = Vec::new();
        let mut i = first;
        while i < len
            invariant
                first <= i <= len,
                len == self.pending_inputs@.len(),
                commands@ == self.pending_inputs@.subrange(first as int, i as int),
            decreases len - i,
        {
            commands.push(self.pending_inputs[i]);
            proof {
                assert(self.pending_inputs@.subrange(first as int, i + 1) =~= self.pending_inputs@.subrange(
                    first as int,
                    i as int,
                ).push(self.pending_inputs@[i as int]));
            }
            i = i + 1;
        }
        Some(InputPacket { newest_seq: newest, commands })
    }
}

/// Acknowledging twice through the same sequence number is the same as
/// acknowledging once.
pub proof fn lemma_acknowledge_idempotent(pending: Seq<PlayerInputCmd>, ack: InputSeq)
    ensures
        acked_prefix(pending.skip(acked_prefix(pending, ack) as int), ack) == 0,
    decreases pending.len(),
{
    if pending.len() > 0 && pending[0].seq <= ack {
        lemma_acknowledge_idempotent(pending.drop_first(), ack);
        let k = acked_prefix(pending.drop_first(), ack);
        lemma_acknowledge_drops_covered(pending.drop_first(), ack);
        assert(acked_prefix(pending, ack) == 1 + k);
        assert(pending.skip(acked_prefix(pending, ack) as int) =~= pending.drop_first().skip(
            acked_prefix(pending.drop_first(), ack) as int,
        ));
    }
}

/// An acknowledgement drops exactly the leading commands numbered at most
/// `ack`: those all are, and the first command kept (if any) is numbered past it.
pub proof fn lemma_acknowledge_drops_covered(pending: Seq<PlayerInputCmd>, ack: InputSeq)
    ensures
        acked_prefix(pending, ack) <= pending.len(),
        forall|i: int| 0 <= i < acked_prefix(pending, ack) ==> #[trigger] pending[i].seq <= ack,
        acked_prefix(pending, ack) < pending.len() ==> pending[acked_prefix(pending, ack) as int].seq > ack,
    decreases pending.len(),
{
    if pending.len() > 0 && pending[0].seq <= ack {
        lemma_acknowledge_drops_covered(pending.drop_first(), ack);
        assert forall|i: int| 0 <= i < acked_prefix(pending, ack) implies #[trigger] pending[i].seq <= ack by {
            if i > 0 {
                assert(pending[i] == pending.drop_first()[i - 1]);
            }
        }
    }
}

} // verus!
