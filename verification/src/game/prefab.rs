//! Prefab placement rules: where an archetype may spawn and the
//! deterministic per-chunk roll that decides whether it does.
use vstd::prelude::*;

use vstd::string::StringSliceAdditionalSpecFns;
use vstd::wrapping::u64_specs::wrapping_mul;

verus! {

/// Kinds of prefab structures.
#[derive(Clone, Copy, Debug, PartialEq, Eq, Structural)]
pub enum PrefabKind {
    Tree,
    House,
    Dungeon,
    Cave,
    Mineshaft,
}

/// Region of chunks a prefab may spawn in.
#[derive(Clone, Copy, Debug, PartialEq, Eq, Structural)]
pub enum SpawnBounds {
    Circle { center_x: i64, center_z: i64, radius_chunks: i64 },
    Rect { min_chunk_x: i64, max_chunk_x: i64, min_chunk_z: i64, max_chunk_z: i64 },
}

/// True when the chunk lies in the region: within the circle's radius
/// (boundary included) or inside the rectangle (edges included).
pub open spec fn spec_chunk_in_bounds(chunk_x: int, chunk_z: int, bounds: SpawnBounds) -> bool {
    match bounds {
        SpawnBounds::Circle { center_x, center_z, radius_chunks } => {
            let dx = chunk_x - center_x;
            let dz = chunk_z - center_z;
            dx * dx + dz * dz <= radius_chunks * radius_chunks
        },
        SpawnBounds::Rect { min_chunk_x, max_chunk_x, min_chunk_z, max_chunk_z } => {
            min_chunk_x <= chunk_x <= max_chunk_x && min_chunk_z <= chunk_z <= max_chunk_z
        },
    }
}

/// The circle test's arithmetic stays within `i64`.
pub open spec fn bounds_arith_fits(chunk_x: int, chunk_z: int, bounds: SpawnBounds) -> bool {
    match bounds {
        SpawnBounds::Circle { center_x, center_z, radius_chunks } => {
            let dx = chunk_x - center_x;
            let dz = chunk_z - center_z;
            &&& i64::MIN <= dx <= i64::MAX
            &&& i64::MIN <= dz <= i64::MAX
            &&& dx * dx <= i64::MAX
            &&& dz * dz <= i64::MAX
            &&& dx * dx + dz * dz <= i64::MAX
            &&& radius_chunks * radius_chunks <= i64::MAX
        },
        SpawnBounds::Rect { .. } => true,
    }
}

pub fn chunk_in_bounds(chunk_x: i64, chunk_z: i64, bounds: SpawnBounds) -> (inside: bool)
    requires
        bounds_arith_fits(chunk_x as int, chunk_z as int, bounds),
    ensures
        inside == spec_chunk_in_bounds(chunk_x as int, chunk_z as int, bounds),
{
    match bounds {
        SpawnBounds::Circle { center_x, center_z, radius_chunks } => {
            let dx = chunk_x - center_x;
            let dz = chunk_z - center_z;
            proof {
                assert(0 <= dx * dx) by (nonlinear_arith);
                assert(0 <= dz * dz) by (nonlinear_arith);
                assert(0 <= radius_chunks * radius_chunks) by (nonlinear_arith);
            }
            dx * dx + dz * dz <= radius_chunks * radius_chunks
        },
        SpawnBounds::Rect { min_chunk_x, max_chunk_x, min_chunk_z, max_chunk_z } => {
            min_chunk_x <= chunk_x && chunk_x <= max_chunk_x && min_chunk_z <= chunk_z && chunk_z <= max_chunk_z
        },
    }
}

/// Rotation of a 64-bit word left by 13 bits.
pub open spec fn rotl13(h: u64) -> u64 {
    (h << 13u64) | (h >> 51u64)
}

/// Mixes one byte of an archetype id into the hash.
pub open spec fn mix_byte(h: u64, b: u8) -> u64 {
    wrapping_mul(rotl13(h ^ wrapping_mul(b as u64, 0x1000_0000_01B3)), 0xFF51_AFD7_ED55_8CCD)
}

/// Mixes the bytes of an archetype id into the hash, first byte first.
pub open spec fn mix_bytes(h: u64, bytes: Seq<u8>) -> u64
    decreases bytes.len(),
{
    if bytes.len() == 0 {
        h
    } else {
        mix_byte(mix_bytes(h, bytes.drop_last()), bytes.last())
    }
}

/// Final avalanche of the roll hash.
pub open spec fn finish(h: u64) -> u64 {
    let a = h ^ (h >> 33u64);
    let b = wrapping_mul(a, 0xC4CE_B9FE_1A85_EC53);
    b ^ (b >> 33u64)
}

/// The 64-bit hash behind a prefab's spawn roll for a chunk.
pub open spec fn spec_roll_hash(seed: i64, chunk_x: i64, chunk_z: i64, id: Seq<u8>) -> u64 {
    let h0 = (seed as u64) ^ wrapping_mul(chunk_x as u64, 0x9E37_79B1_85EB_CA87) ^ wrapping_mul(
        chunk_z as u64,
        0xC2B2_AE3D_27D4_EB4F,
    );
    finish(mix_bytes(h0, id))
}

/// Hash of seed, chunk and archetype id; the spawn roll is this hash as a
/// fraction of `u64::MAX`.
pub fn roll_hash(seed: i64, chunk_x: i64, chunk_z: i64, id: &str) -> (h: u64)
    ensures
        h == spec_roll_hash(seed, chunk_x, chunk_z, id.spec_bytes()),
{
    let mut h = seed as u64;
    h ^= (chunk_x as u64).wrapping_mul(0x9E37_79B1_85EB_CA87);
    h ^= (chunk_z as u64).wrapping_mul(0xC2B2_AE3D_27D4_EB4F);
    let ghost h0 = h;
    let bytes = id.as_bytes();
    let mut i: usize = 0;
    while i < bytes.len()
        invariant
            i <= bytes@.len(),
            bytes@ == id.spec_bytes(),
            h == mix_bytes(h0, bytes@.subrange(0, i as int)),
        decreases bytes@.len() - i,
    {
        let b = bytes[i];
        h ^= (b as u64).wrapping_mul(0x1000_0000_01B3);
        h = ((h << 13u64) | (h >> 51u64)).wrapping_mul(0xFF51_AFD7_ED55_8CCD);
        proof {
            let p = bytes@.subrange(0, i + 1);
            assert(p.drop_last() =~= bytes@.subrange(0, i as int));
            assert(p.last() == b);
        }
        i = i + 1;
    }
    proof {
        assert(bytes@.subrange(0, bytes@.len() as int) =~= bytes@);
    }
    h ^= h >> 33u64;
    h = h.wrapping_mul(0xC4CE_B9FE_1A85_EC53);
    h ^= h >> 33u64;
    h
}

} // verus!

verus! {

/// What decides where an archetype may spawn: its id, the biomes it
/// belongs to and an optional region.
pub struct SpawnRule {
    pub id: String,
    pub allowed_biomes: Vec<String>,
    pub bounds: Option<SpawnBounds>,
}

/// The archetype may spawn in the chunk: the biome is one of its biomes and
/// the chunk lies in its region, if it has one.
pub open spec fn spec_spawn_eligible(rule: SpawnRule, chunk_x: int, chunk_z: int, biome: Seq<char>) -> bool {
    &&& exists|i: int| 0 <= i < rule.allowed_biomes@.len() && #[trigger] rule.allowed_biomes@[i]@ == biome
    &&& match rule.bounds {
        Some(b) => spec_chunk_in_bounds(chunk_x, chunk_z, b),
        None => true,
    }
}

/// Whether the archetype may spawn in the chunk (see `spec_spawn_eligible`);
/// whether it does is then up to its spawn roll.
pub fn spawn_eligible(rule: &SpawnRule, chunk_x: i64, chunk_z: i64, biome: &str) -> (eligible: bool)
    requires
        match rule.bounds {
            Some(b) => bounds_arith_fits(chunk_x as int, chunk_z as int, b),
            None => true,
        },
    ensures
        eligible == spec_spawn_eligible(*rule, chunk_x as int, chunk_z as int, biome@),
{
    let wanted = crate::text::chars_of(biome);
    let mut found = false;
    let mut i: usize = 0;
    while i < rule.allowed_biomes.len()
        invariant
            i <= rule.allowed_biomes@.len(),
            wanted@ == biome@,
            found == exists|j: int| 0 <= j < i && #[trigger] rule.allowed_biomes@[j]@ == biome@,
        decreases rule.allowed_biomes@.len() - i,
    {
        let allowed = crate::text::chars_of(rule.allowed_biomes[i].as_str());
        if crate::text::chars_eq(&allowed, biome) {
            found = true;
        }
        proof {
            if allowed@ == biome@ {
                assert(rule.allowed_biomes@[i as int]@ == biome@);
            }
        }
        i = i + 1;
    }
    if !found {
        return false;
    }
    match rule.bounds {
        Some(b) => chunk_in_bounds(chunk_x, chunk_z, b),
        None => true,
    }
}

} // verus!

verus! {

/// A prefab archetype's placement: its kind, how many chunks it spans and
/// where it may spawn.
pub struct PrefabRule {
    pub kind: PrefabKind,
    pub footprint_chunks: (i64, i64),
    pub spawn: SpawnRule,
}

/// `rule` is the archetype `id` of `kind` spanning `footprint` chunks, in
/// the biomes `biomes` and the region `bounds`.
pub open spec fn rule_is(
    rule: PrefabRule,
    id: Seq<char>,
    kind: PrefabKind,
    footprint: (i64, i64),
    biomes: Seq<Seq<char>>,
    bounds: Option<SpawnBounds>,
) -> bool {
    &&& rule.spawn.id@ == id
    &&& rule.kind == kind
    &&& rule.footprint_chunks == footprint
    &&& rule.spawn.allowed_biomes@.map_values(|s: String| s@) == biomes
    &&& rule.spawn.bounds == bounds
}

fn rule(kind: PrefabKind, id: &str, footprint: (i64, i64), biome_a: &str, biome_b: &str, bounds: Option<SpawnBounds>) -> (r:
    PrefabRule)
    ensures
        rule_is(r, id@, kind, footprint, seq![biome_a@, biome_b@], bounds),
{
    let mut biomes: Vec<String> = Vec::new();
    biomes.push(String::from_str(biome_a));
    biomes.push(String::from_str(biome_b));
    let r = PrefabRule { kind, footprint_chunks: footprint, spawn: SpawnRule { id: String::from_str(id), allowed_biomes: biomes, bounds } };
    proof {
        assert(r.spawn.allowed_biomes@.map_values(|s: String| s@) =~= seq![biome_a@, biome_b@]);
    }
    r
}

/// The placements of the default prefab catalogue: oak trees, village
/// houses near the origin, dungeon rooms, cave entrances and mineshaft
/// segments.
pub fn default_prefab_rules() -> (rules: Vec<PrefabRule>)
    ensures
        rules@.len() == 5,
        rule_is(rules@[0], "oak_tree"@, PrefabKind::Tree, (1, 1), seq!["meadow"@, "valley"@], None),
        rule_is(
            rules@[1],
            "village_house"@,
            PrefabKind::House,
            (1, 1),
            seq!["meadow"@, "desert"@],
            Some(SpawnBounds::Circle { center_x: 0, center_z: 0, radius_chunks: 96 }),
        ),
        rule_is(
            rules@[2],
            "dungeon_room"@,
            PrefabKind::Dungeon,
            (2, 2),
            seq!["mountain"@, "valley"@],
            Some(SpawnBounds::Rect { min_chunk_x: -256i64, max_chunk_x: 256, min_chunk_z: -256i64, max_chunk_z: 256 }),
        ),
        rule_is(rules@[3], "cave_entrance"@, PrefabKind::Cave, (1, 1), seq!["mountain"@, "desert"@], None),
        rule_is(
            rules@[4],
            "mineshaft_segment"@,
            PrefabKind::Mineshaft,
            (2, 1),
            seq!["mountain"@, "valley"@],
            Some(SpawnBounds::Rect { min_chunk_x: -512i64, max_chunk_x: 512, min_chunk_z: -512i64, max_chunk_z: 512 }),
        ),
{
    let oak = rule(PrefabKind::Tree, "oak_tree", (1, 1), "meadow", "valley", None);
    let house = rule(
        PrefabKind::House,
        "village_house",
        (1, 1),
        "meadow", "desert",
        Some(SpawnBounds::Circle { center_x: 0, center_z: 0, radius_chunks: 96 }),
    );
    let dungeon = rule(
        PrefabKind::Dungeon,
        "dungeon_room",
        (2, 2),
        "mountain", "valley",
        Some(SpawnBounds::Rect { min_chunk_x: -256, max_chunk_x: 256, min_chunk_z: -256, max_chunk_z: 256 }),
    );
    let cave = rule(PrefabKind::Cave, "cave_entrance", (1, 1), "mountain", "desert", None);
    let mineshaft = rule(
        PrefabKind::Mineshaft,
        "mineshaft_segment",
        (2, 1),
        "mountain", "valley",
        Some(SpawnBounds::Rect { min_chunk_x: -512, max_chunk_x: 512, min_chunk_z: -512, max_chunk_z: 512 }),
    );
    let mut rules: Vec<PrefabRule> = Vec::new();
    rules.push(oak);
    rules.push(house);
    rules.push(dungeon);
    rules.push(cave);
    rules.push(mineshaft);
    rules
}

/// The archetype of `rule` spawns in the chunk: it may spawn there (see
/// `spec_spawn_eligible`) and its roll hash is at most `threshold`, the
/// largest hash whose roll its spawn chance admits.
pub open spec fn spawns_in(rule: SpawnRule, threshold: u64, chunk_x: i64, chunk_z: i64, biome: Seq<char>, seed: i64) -> bool {
    &&& spec_spawn_eligible(rule, chunk_x as int, chunk_z as int, biome)
    &&& spec_roll_hash(seed, chunk_x, chunk_z, vstd::utf8::encode_utf8(rule.id@)) <= threshold
}

/// Indices, in order, of the first `n` archetypes that spawn in the chunk.
pub open spec fn candidate_indices(
    rules: Seq<PrefabRule>,
    thresholds: Seq<u64>,
    chunk_x: i64,
    chunk_z: i64,
    biome: Seq<char>,
    seed: i64,
    n: int,
) -> Seq<usize>
    decreases n,
{
    if n <= 0 {
        Seq::empty()
    } else {
        candidate_indices(rules, thresholds, chunk_x, chunk_z, biome, seed, n - 1) + if spawns_in(
            rules[n - 1].spawn,
            thresholds[n - 1],
            chunk_x,
            chunk_z,
            biome,
            seed,
        ) {
            seq![(n - 1) as usize]
        } else {
            Seq::empty()
        }
    }
}

/// The archetypes that spawn in chunk `(chunk_x, chunk_z)` of biome `biome`
/// for world seed `seed`, by index in `rules`; `thresholds[i]` is the
/// largest roll hash that archetype `i`'s spawn chance admits.
pub fn candidates_for_chunk(
    rules: &Vec<PrefabRule>,
    thresholds: &Vec<u64>,
    chunk_x: i64,
    chunk_z: i64,
    biome: &str,
    seed: i64,
) -> (picked: Vec<usize>)
    requires
        thresholds@.len() == rules@.len(),
        forall|i: int|
            0 <= i < rules@.len() ==> match (#[trigger] rules@[i]).spawn.bounds {
                Some(b) => bounds_arith_fits(chunk_x as int, chunk_z as int, b),
                None => true,
            },
    ensures
        picked@ == candidate_indices(rules@, thresholds@, chunk_x, chunk_z, biome@, seed, rules@.len() as int),
{
    let mut picked: Vec<usize> = Vec::new();
    let mut i: usize = 0;
    while i < rules.len()
        invariant
            i <= rules@.len(),
            thresholds@.len() == rules@.len(),
            forall|j: int|
                0 <= j < rules@.len() ==> match (#[trigger] rules@[j]).spawn.bounds {
                    Some(b) => bounds_arith_fits(chunk_x as int, chunk_z as int, b),
                    None => true,
                },
            picked@ == candidate_indices(rules@, thresholds@, chunk_x, chunk_z, biome@, seed, i as int),
        decreases rules@.len() - i,
    {
        let r = &rules[i];
        let mut spawns = false;
        if spawn_eligible(&r.spawn, chunk_x, chunk_z, biome) {
            let h = roll_hash(seed, chunk_x, chunk_z, r.spawn.id.as_str());
            spawns = h <= thresholds[i];
        }
        if spawns {
            picked.push(i);
        }
        proof {
            if spawns {
                assert(picked@ =~= candidate_indices(rules@, thresholds@, chunk_x, chunk_z, biome@, seed, i as int)
                    + seq![i]);
            } else {
                assert(picked@ =~= candidate_indices(rules@, thresholds@, chunk_x, chunk_z, biome@, seed, i as int)
                    + Seq::<usize>::empty());
            }
        }
        i = i + 1;
    }
    picked
}

} // verus!

verus! {

/// A rectangular region holds exactly the chunks on or inside all four of
/// its edges: a chunk beyond any one edge is outside it.
pub proof fn lemma_rect_region(chunk_x: int, chunk_z: int, min_x: i64, max_x: i64, min_z: i64, max_z: i64)
    ensures
        spec_chunk_in_bounds(
            chunk_x,
            chunk_z,
            SpawnBounds::Rect { min_chunk_x: min_x, max_chunk_x: max_x, min_chunk_z: min_z, max_chunk_z: max_z },
        ) ==> min_x <= chunk_x && chunk_x <= max_x && min_z <= chunk_z && chunk_z <= max_z,
        chunk_x < min_x || chunk_x > max_x || chunk_z < min_z || chunk_z > max_z ==> !spec_chunk_in_bounds(
            chunk_x,
            chunk_z,
            SpawnBounds::Rect { min_chunk_x: min_x, max_chunk_x: max_x, min_chunk_z: min_z, max_chunk_z: max_z },
        ),
        min_x <= chunk_x <= max_x && min_z <= chunk_z <= max_z ==> spec_chunk_in_bounds(
            chunk_x,
            chunk_z,
            SpawnBounds::Rect { min_chunk_x: min_x, max_chunk_x: max_x, min_chunk_z: min_z, max_chunk_z: max_z },
        ),
{
}

/// A circular region holds exactly the chunks whose squared distance from
/// its center is at most the squared radius.
pub proof fn lemma_circle_region(chunk_x: int, chunk_z: int, cx: i64, cz: i64, r: i64)
    ensures
        spec_chunk_in_bounds(chunk_x, chunk_z, SpawnBounds::Circle { center_x: cx, center_z: cz, radius_chunks: r })
            <==> (chunk_x - cx) * (chunk_x - cx) + (chunk_z - cz) * (chunk_z - cz) <= r * r,
{
}

proof fn lemma_candidates_spawn(
    rules: Seq<PrefabRule>,
    thresholds: Seq<u64>,
    chunk_x: i64,
    chunk_z: i64,
    biome: Seq<char>,
    seed: i64,
    n: int,
)
    requires
        0 <= n <= rules.len(),
        rules.len() <= usize::MAX,
    ensures
        forall|k: int|
            0 <= k < candidate_indices(rules, thresholds, chunk_x, chunk_z, biome, seed, n).len() ==> {
                let i = #[trigger] candidate_indices(rules, thresholds, chunk_x, chunk_z, biome, seed, n)[k] as int;
                0 <= i < n && spawns_in(rules[i].spawn, thresholds[i], chunk_x, chunk_z, biome, seed)
            },
    decreases n,
{
    if n > 0 {
        lemma_candidates_spawn(rules, thresholds, chunk_x, chunk_z, biome, seed, n - 1);
        let prev = candidate_indices(rules, thresholds, chunk_x, chunk_z, biome, seed, n - 1);
        let all = candidate_indices(rules, thresholds, chunk_x, chunk_z, biome, seed, n);
        assert forall|k: int| 0 <= k < all.len() implies {
            let i = #[trigger] all[k] as int;
            0 <= i < n && spawns_in(rules[i].spawn, thresholds[i], chunk_x, chunk_z, biome, seed)
        } by {
            if k < prev.len() {
                assert(all[k] == prev[k]);
            } else {
                assert(all[k] == (n - 1) as usize);
            }
        }
    }
}

/// Every archetype offered for a chunk is one of the chunk's biome and, when
/// it has a region, one whose region holds the chunk (for a rectangle, the
/// chunk lies on or inside all four edges); its roll hash is within its
/// threshold.
pub proof fn lemma_candidates_fit_chunk(
    rules: Seq<PrefabRule>,
    thresholds: Seq<u64>,
    chunk_x: i64,
    chunk_z: i64,
    biome: Seq<char>,
    seed: i64,
    k: int,
)
    requires
        rules.len() <= usize::MAX,
        0 <= k < candidate_indices(rules, thresholds, chunk_x, chunk_z, biome, seed, rules.len() as int).len(),
    ensures
        ({
            let i = candidate_indices(rules, thresholds, chunk_x, chunk_z, biome, seed, rules.len() as int)[k] as int;
            &&& 0 <= i < rules.len()
            &&& exists|b: int|
                0 <= b < rules[i].spawn.allowed_biomes@.len() && #[trigger] rules[i].spawn.allowed_biomes@[b]@ == biome
            &&& match rules[i].spawn.bounds {
                Some(SpawnBounds::Rect { min_chunk_x, max_chunk_x, min_chunk_z, max_chunk_z }) => min_chunk_x <= chunk_x
                    && chunk_x <= max_chunk_x && min_chunk_z <= chunk_z && chunk_z <= max_chunk_z,
                Some(SpawnBounds::Circle { center_x, center_z, radius_chunks }) => (chunk_x - center_x) * (chunk_x
                    - center_x) + (chunk_z - center_z) * (chunk_z - center_z) <= radius_chunks * radius_chunks,
                None => true,
            }
            &&& spec_roll_hash(seed, chunk_x, chunk_z, vstd::utf8::encode_utf8(rules[i].spawn.id@)) <= thresholds[i]
        }),
{
    lemma_candidates_spawn(rules, thresholds, chunk_x, chunk_z, biome, seed, rules.len() as int);
    let i = candidate_indices(rules, thresholds, chunk_x, chunk_z, biome, seed, rules.len() as int)[k] as int;
    match rules[i].spawn.bounds {
        Some(SpawnBounds::Rect { min_chunk_x, max_chunk_x, min_chunk_z, max_chunk_z }) => {
            lemma_rect_region(chunk_x as int, chunk_z as int, min_chunk_x, max_chunk_x, min_chunk_z, max_chunk_z);
        },
        Some(SpawnBounds::Circle { center_x, center_z, radius_chunks }) => {
            lemma_circle_region(chunk_x as int, chunk_z as int, center_x, center_z, radius_chunks);
        },
        None => {},
    }
}

} // verus!
