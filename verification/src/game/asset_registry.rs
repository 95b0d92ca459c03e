//! The biome part of the asset registry: entries kept in order of their ids,
//! each id at most once, and the `biome,...` lines of the registry file.
use vstd::prelude::*;

use crate::text::{chars_eq, chars_of, split_chars, split_on, starts_with, trim, trim_chars, chars_start_with};

verus! {

/// A biome: its terrain profile and the textures of its top, sides and bottom.
#[derive(Clone, Debug, PartialEq)]
pub struct BiomeEntry {
    pub id: String,
    pub terrain_profile: String,
    pub top_texture: String,
    pub side_texture: String,
    pub bottom_texture: String,
}

/// `a` sorts before `b`: the first differing character is smaller, or `a`
/// is a proper prefix of `b` (the order of `str`'s comparison).
pub open spec fn text_less(a: Seq<char>, b: Seq<char>) -> bool
    decreases a.len(),
{
    if b.len() == 0 {
        false
    } else if a.len() == 0 {
        true
    } else if a[0] != b[0] {
        a[0] < b[0]
    } else {
        text_less(a.drop_first(), b.drop_first())
    }
}

pub proof fn lemma_text_less_irreflexive(a: Seq<char>)
    ensures
        !text_less(a, a),
    decreases a.len(),
{
    if a.len() > 0 {
        lemma_text_less_irreflexive(a.drop_first());
    }
}

pub proof fn lemma_text_less_transitive(a: Seq<char>, b: Seq<char>, c: Seq<char>)
    requires
        text_less(a, b),
        text_less(b, c),
    ensures
        text_less(a, c),
    decreases a.len(),
{
    if a.len() > 0 && b.len() > 0 && c.len() > 0 && a[0] == b[0] && b[0] == c[0] {
        lemma_text_less_transitive(a.drop_first(), b.drop_first(), c.drop_first());
    }
}

pub proof fn lemma_text_less_total(a: Seq<char>, b: Seq<char>)
    ensures
        a == b || text_less(a, b) || text_less(b, a),
    decreases a.len(),
{
    if a.len() > 0 && b.len() > 0 {
        if a[0] == b[0] {
            lemma_text_less_total(a.drop_first(), b.drop_first());
            if a.drop_first() == b.drop_first() {
                assert(a =~= seq![a[0]] + a.drop_first());
                assert(b =~= seq![b[0]] + b.drop_first());
            }
        }
    } else if a.len() == 0 && b.len() == 0 {
        assert(a =~= b);
    }
}

/// Whether `a` sorts before `b` (see `text_less`).
pub fn text_less_than(a: &str, b: &str) -> (less: bool)
    ensures
        less == text_less(a@, b@),
{
    let na = a.unicode_len();
    let nb = b.unicode_len();
    let mut i: usize = 0;
    proof {
        assert(a@.skip(0) =~= a@);
        assert(b@.skip(0) =~= b@);
    }
    while i < na && i < nb
        invariant
            na == a@.len(),
            nb == b@.len(),
            i <= na,
            i <= nb,
            text_less(a@, b@) == text_less(a@.skip(i as int), b@.skip(i as int)),
        decreases na - i,
    {
        let ca = a.get_char(i);
        let cb = b.get_char(i);
        proof {
            assert(a@.skip(i as int)[0] == ca);
            assert(b@.skip(i as int)[0] == cb);
        }
        if ca != cb {
            return ca < cb;
        }
        proof {
            assert(a@.skip(i as int).drop_first() =~= a@.skip(i + 1));
            assert(b@.skip(i as int).drop_first() =~= b@.skip(i + 1));
        }
        i = i + 1;
    }
    i < nb
}

/// The ids of `biomes`, in order.
pub open spec fn biome_ids(biomes: Seq<BiomeEntry>) -> Seq<Seq<char>> {
    biomes.map_values(|b: BiomeEntry| b.id@)
}

/// Each id sorts before every later one (so no id occurs twice).
pub open spec fn ids_sorted(ids: Seq<Seq<char>>) -> bool {
    forall|i: int, j: int| 0 <= i < j < ids.len() ==> text_less(#[trigger] ids[i], #[trigger] ids[j])
}

/// How many of `ids` sort before `id`: in sorted ids, where `id` is or
/// belongs.
pub open spec fn less_count(ids: Seq<Seq<char>>, id: Seq<char>) -> nat
    decreases ids.len(),
{
    if ids.len() == 0 {
        0
    } else {
        less_count(ids.drop_last(), id) + if text_less(ids.last(), id) {
            1nat
        } else {
            0nat
        }
    }
}

proof fn lemma_less_count(ids: Seq<Seq<char>>, id: Seq<char>, i: int)
    requires
        0 <= i <= ids.len(),
        forall|j: int| 0 <= j < i ==> text_less(#[trigger] ids[j], id),
        forall|j: int| i <= j < ids.len() ==> !text_less(#[trigger] ids[j], id),
    ensures
        less_count(ids, id) == i,
    decreases ids.len(),
{
    if ids.len() > 0 {
        let rest = ids.drop_last();
        if i == ids.len() {
            assert(text_less(ids[ids.len() - 1], id));
            lemma_less_count(rest, id, i - 1);
        } else {
            assert(!text_less(ids[ids.len() - 1], id));
            lemma_less_count(rest, id, i);
        }
    }
}

/// Where `id` is in sorted `ids` (`Ok`), or the position that keeps them
/// sorted when it is added (`Err`); either way `less_count(ids, id)`.
pub fn sorted_slot(ids: &Vec<String>, id: &str) -> (slot: Result<usize, usize>)
    requires
        ids_sorted(ids@.map_values(|s: String| s@)),
    ensures
        match slot {
            Ok(i) => i == less_count(ids@.map_values(|s: String| s@), id@) && i < ids@.len() && ids@[i as int]@ == id@,
            Err(i) => i == less_count(ids@.map_values(|s: String| s@), id@) && i <= ids@.len() && (i == ids@.len()
                || ids@[i as int]@ != id@),
        },
{
    let ghost v = ids@.map_values(|s: String| s@);
    let n = ids.len();
    let mut i: usize = 0;
    while i < n && text_less_than(ids[i].as_str(), id)
        invariant
            n == ids@.len(),
            v == ids@.map_values(|s: String| s@),
            ids_sorted(v),
            i <= n,
            forall|j: int| 0 <= j < i ==> text_less(#[trigger] v[j], id@),
        decreases n - i,
    {
        i = i + 1;
    }
    proof {
        assert forall|j: int| i <= j < v.len() implies !text_less(#[trigger] v[j], id@) by {
            if j > i && text_less(v[j], id@) {
                lemma_text_less_transitive(v[i as int], v[j], id@);
            }
        }
        lemma_less_count(v, id@, i as int);
    }
    if i < n && !text_less_than(id, ids[i].as_str()) {
        proof {
            lemma_text_less_total(v[i as int], id@);
        }
        Ok(i)
    } else {
        proof {
            if i < n {
                lemma_text_less_irreflexive(id@);
            }
        }
        Err(i)
    }
}

fn ids_of(biomes: &Vec<BiomeEntry>) -> (ids: Vec<String>)
    ensures
        ids@.map_values(|s: String| s@) == biome_ids(biomes@),
{
    let mut ids: Vec<String> = Vec::new();
    let mut k: usize = 0;
    while k < biomes.len()
        invariant
            k <= biomes@.len(),
            ids@.len() == k,
            forall|j: int| 0 <= j < k ==> #[trigger] ids@[j]@ == biomes@[j].id@,
        decreases biomes@.len() - k,
    {
        ids.push(biomes[k].id.clone());
        k = k + 1;
    }
    proof {
        assert(ids@.map_values(|s: String| s@) =~= biome_ids(biomes@));
    }
    ids
}

/// Adds `biome`, or replaces the entry with its id, keeping the entries in
/// order of their ids.
pub fn upsert_biome(biomes: &mut Vec<BiomeEntry>, biome: BiomeEntry)
    requires
        ids_sorted(biome_ids(old(biomes)@)),
    ensures
        ids_sorted(biome_ids(final(biomes)@)),
        ({
            let p = less_count(biome_ids(old(biomes)@), biome.id@) as int;
            if p < old(biomes)@.len() && old(biomes)@[p].id@ == biome.id@ {
                final(biomes)@ == old(biomes)@.update(p, biome)
            } else {
                final(biomes)@ == old(biomes)@.insert(p, biome)
            }
        }),
{
    let ids = ids_of(biomes);
    let ghost v = biome_ids(biomes@);
    proof {
        assert(v == ids@.map_values(|s: String| s@));
    }
    let ghost id = biome.id@;
    match sorted_slot(&ids, biome.id.as_str()) {
        Ok(i) => {
            proof {
                assert(v[i as int] == biomes@[i as int].id@);
            }
            biomes.set(i, biome);
            proof {
                assert(biome_ids(biomes@) =~= v.update(i as int, id));
                assert(v[i as int] == id);
                assert(biome_ids(biomes@) =~= v);
            }
        },
        Err(i) => {
            proof {
                if i < v.len() {
                    assert(v[i as int] == biomes@[i as int].id@);
                }
                assert forall|j: int| 0 <= j < i implies text_less(#[trigger] v[j], id) by {
                    if !text_less(v[j], id) {
                        assert(forall|k: int| 0 <= k < v.len() && text_less(v[k], id) ==> k < i) by {
                            lemma_less_count_bound(v, id, i as int);
                        }
                        lemma_less_count_prefix(v, id, j);
                    }
                }
                assert forall|j: int| i <= j < v.len() implies text_less(id, #[trigger] v[j]) by {
                    lemma_after_slot(v, id, i as int, j);
                }
            }
            biomes.insert(i, biome);
            proof {
                let w = biome_ids(biomes@);
                assert(w =~= v.insert(i as int, id));
                assert forall|a: int, b: int| 0 <= a < b < w.len() implies text_less(#[trigger] w[a], #[trigger] w[b]) by {
                    if b < i {
                    } else if a < i && b == i {
                    } else if a < i {
                        lemma_text_less_transitive(w[a], id, w[b]);
                    } else if a == i {
                    } else {
                    }
                }
            }
        },
    }
}

proof fn lemma_less_count_bound(v: Seq<Seq<char>>, id: Seq<char>, i: int)
    requires
        ids_sorted(v),
        i == less_count(v, id),
    ensures
        forall|k: int| 0 <= k < v.len() && text_less(#[trigger] v[k], id) ==> k < i,
{
    let p = first_not_less(v, id);
    lemma_first_not_less(v, id);
    lemma_less_count(v, id, p);
}

/// Position of the first id that does not sort before `id` (the length when
/// there is none).
spec fn first_not_less(v: Seq<Seq<char>>, id: Seq<char>) -> int
    decreases v.len(),
{
    if v.len() == 0 {
        0
    } else if !text_less(v[0], id) {
        0
    } else {
        1 + first_not_less(v.drop_first(), id)
    }
}

proof fn lemma_first_not_less(v: Seq<Seq<char>>, id: Seq<char>)
    requires
        ids_sorted(v),
    ensures
        0 <= first_not_less(v, id) <= v.len(),
        forall|j: int| 0 <= j < first_not_less(v, id) ==> text_less(#[trigger] v[j], id),
        forall|j: int| first_not_less(v, id) <= j < v.len() ==> !text_less(#[trigger] v[j], id),
    decreases v.len(),
{
    if v.len() > 0 {
        let rest = v.drop_first();
        assert(ids_sorted(rest)) by {
            assert forall|a: int, b: int| 0 <= a < b < rest.len() implies text_less(#[trigger] rest[a], #[trigger] rest[b]) by {
                assert(rest[a] == v[a + 1] && rest[b] == v[b + 1]);
            }
        }
        lemma_first_not_less(rest, id);
        if !text_less(v[0], id) {
            assert forall|j: int| 0 <= j < v.len() implies !text_less(#[trigger] v[j], id) by {
                if j > 0 && text_less(v[j], id) {
                    lemma_text_less_transitive(v[0], v[j], id);
                }
            }
        } else {
            assert forall|j: int| 0 <= j < first_not_less(v, id) implies text_less(#[trigger] v[j], id) by {
                if j > 0 {
                    assert(v[j] == rest[j - 1]);
                }
            }
            assert forall|j: int| first_not_less(v, id) <= j < v.len() implies !text_less(#[trigger] v[j], id) by {
                assert(v[j] == rest[j - 1]);
            }
        }
    }
}

proof fn lemma_less_count_prefix(v: Seq<Seq<char>>, id: Seq<char>, j: int)
    requires
        ids_sorted(v),
        0 <= j < less_count(v, id),
    ensures
        text_less(v[j], id),
{
    lemma_first_not_less(v, id);
    lemma_less_count(v, id, first_not_less(v, id));
}

proof fn lemma_after_slot(v: Seq<Seq<char>>, id: Seq<char>, i: int, j: int)
    requires
        ids_sorted(v),
        i == less_count(v, id),
        i == v.len() || v[i] != id,
        i <= j < v.len(),
    ensures
        text_less(id, v[j]),
{
    lemma_first_not_less(v, id);
    lemma_less_count(v, id, first_not_less(v, id));
    assert(!text_less(v[i], id));
    lemma_text_less_total(v[i], id);
    if j > i {
        lemma_text_less_transitive(id, v[i], v[j]);
    }
}

/// Removes the entry with id `id`, if there is one.
pub fn remove_biome(biomes: &mut Vec<BiomeEntry>, id: &str)
    requires
        ids_sorted(biome_ids(old(biomes)@)),
    ensures
        ids_sorted(biome_ids(final(biomes)@)),
        ({
            let p = less_count(biome_ids(old(biomes)@), id@) as int;
            if p < old(biomes)@.len() && old(biomes)@[p].id@ == id@ {
                final(biomes)@ == old(biomes)@.remove(p)
            } else {
                final(biomes)@ == old(biomes)@
            }
        }),
{
    let ids = ids_of(biomes);
    let ghost v = biome_ids(biomes@);
    proof {
        assert(v == ids@.map_values(|s: String| s@));
    }
    match sorted_slot(&ids, id) {
        Ok(i) => {
            proof {
                assert(v[i as int] == biomes@[i as int].id@);
            }
            biomes.remove(i);
            proof {
                let w = biome_ids(biomes@);
                assert(w =~= v.remove(i as int));
                assert forall|a: int, b: int| 0 <= a < b < w.len() implies text_less(#[trigger] w[a], #[trigger] w[b]) by {
                    if a < i && b >= i {
                        assert(w[b] == v[b + 1]);
                    } else if a >= i {
                        assert(w[a] == v[a + 1] && w[b] == v[b + 1]);
                    }
                }
            }
        },
        Err(i) => {
            proof {
                if i < v.len() {
                    assert(v[i as int] == biomes@[i as int].id@);
                }
            }
        },
    }
}

/// Adding `id` at its sorted position keeps the ids sorted.
proof fn lemma_insert_keeps_sorted(v: Seq<Seq<char>>, id: Seq<char>, i: int)
    requires
        ids_sorted(v),
        i == less_count(v, id),
        i <= v.len(),
        i == v.len() || v[i] != id,
    ensures
        ids_sorted(v.insert(i, id)),
{
    assert forall|j: int| 0 <= j < i implies text_less(#[trigger] v[j], id) by {
        lemma_less_count_prefix(v, id, j);
    }
    assert forall|j: int| i <= j < v.len() implies text_less(id, #[trigger] v[j]) by {
        lemma_after_slot(v, id, i, j);
    }
    let w = v.insert(i, id);
    assert forall|a: int, b: int| 0 <= a < b < w.len() implies text_less(#[trigger] w[a], #[trigger] w[b]) by {
        if a < i && b > i {
            lemma_text_less_transitive(w[a], id, w[b]);
        }
    }
}

/// Dropping one id keeps the ids sorted.
proof fn lemma_remove_keeps_sorted(v: Seq<Seq<char>>, i: int)
    requires
        ids_sorted(v),
        0 <= i < v.len(),
    ensures
        ids_sorted(v.remove(i)),
{
    let w = v.remove(i);
    assert forall|a: int, b: int| 0 <= a < b < w.len() implies text_less(#[trigger] w[a], #[trigger] w[b]) by {
        if a < i && b >= i {
            assert(w[b] == v[b + 1]);
        } else if a >= i {
            assert(w[a] == v[a + 1] && w[b] == v[b + 1]);
        }
    }
}

/// A texture of the registry: its id, its image file, and its tint as the
/// bit patterns of three single-precision numbers (red, green, blue), which
/// the registry carries unchanged.
#[derive(Clone, Debug)]
pub struct TextureEntry {
    pub id: String,
    pub path: String,
    pub tint_bits: [u32; 3],
}

/// The ids of `textures`, in order.
pub open spec fn texture_ids(textures: Seq<TextureEntry>) -> Seq<Seq<char>> {
    textures.map_values(|t: TextureEntry| t.id@)
}

/// The textures after `texture` is added at its sorted place, or replaces
/// the entry with its id.
pub open spec fn textures_with(textures: Seq<TextureEntry>, texture: TextureEntry) -> Seq<TextureEntry> {
    let p = less_count(texture_ids(textures), texture.id@) as int;
    if p < textures.len() && textures[p].id@ == texture.id@ {
        textures.update(p, texture)
    } else {
        textures.insert(p, texture)
    }
}

/// In sorted ids, an id's position is the number of ids before it.
proof fn lemma_position_of_present(v: Seq<Seq<char>>, j: int)
    requires
        ids_sorted(v),
        0 <= j < v.len(),
    ensures
        less_count(v, v[j]) == j,
{
    let id = v[j];
    assert forall|k: int| j <= k < v.len() implies !text_less(#[trigger] v[k], id) by {
        lemma_text_less_irreflexive(id);
        if k > j && text_less(v[k], id) {
            lemma_text_less_transitive(id, v[k], id);
        }
    }
    lemma_less_count(v, id, j);
}

/// Adding or replacing a texture keeps the ids sorted (so each occurs once);
/// afterwards exactly one entry has the new id and it is the new texture,
/// every entry with another id is kept and no other appears, and the list
/// grows by one exactly when the id was new.
pub proof fn lemma_textures_with(textures: Seq<TextureEntry>, texture: TextureEntry)
    requires
        ids_sorted(texture_ids(textures)),
    ensures
        ids_sorted(texture_ids(textures_with(textures, texture))),
        ({
            let t = textures_with(textures, texture);
            &&& exists|i: int| 0 <= i < t.len() && t[i] == texture
            &&& forall|i: int| 0 <= i < t.len() && (#[trigger] t[i]).id@ == texture.id@ ==> t[i] == texture
            &&& forall|i: int| 0 <= i < textures.len() && (#[trigger] textures[i]).id@ != texture.id@ ==> t.contains(textures[i])
            &&& forall|i: int| 0 <= i < t.len() && (#[trigger] t[i]).id@ != texture.id@ ==> textures.contains(t[i])
            &&& t.len() == textures.len() + if texture_ids(textures).contains(texture.id@) {
                0int
            } else {
                1int
            }
        }),
{
    let v = texture_ids(textures);
    let id = texture.id@;
    let p = less_count(v, id) as int;
    let t = textures_with(textures, texture);
    lemma_less_count_range(v, id);
    if p < textures.len() && textures[p].id@ == id {
        assert(texture_ids(t) =~= v);
        assert(v[p] == id);
        assert(v.contains(id));
        assert forall|i: int| 0 <= i < t.len() && (#[trigger] t[i]).id@ == texture.id@ implies t[i] == texture by {
            if i != p {
                assert(v[i] == id && v[p] == id);
                lemma_text_less_irreflexive(id);
            }
        }
        assert forall|i: int| 0 <= i < textures.len() && (#[trigger] textures[i]).id@ != texture.id@ implies t.contains(
            textures[i],
        ) by {
            assert(t[i] == textures[i]);
        }
        assert forall|i: int| 0 <= i < t.len() && (#[trigger] t[i]).id@ != texture.id@ implies textures.contains(t[i]) by {
            assert(t[i] == textures[i]);
        }
        assert(t[p] == texture);
    } else {
        lemma_insert_keeps_sorted(v, id, p);
        assert(texture_ids(t) =~= v.insert(p, id));
        assert(!v.contains(id)) by {
            if v.contains(id) {
                let j = choose|j: int| 0 <= j < v.len() && v[j] == id;
                lemma_position_of_present(v, j);
                assert(textures[j].id@ == id);
            }
        }
        assert forall|i: int| 0 <= i < t.len() && (#[trigger] t[i]).id@ == texture.id@ implies t[i] == texture by {
            if i < p {
                assert(t[i] == textures[i]);
                assert(v[i] == id);
            } else if i > p {
                assert(t[i] == textures[i - 1]);
                assert(v[i - 1] == id);
            }
        }
        assert forall|i: int| 0 <= i < textures.len() && (#[trigger] textures[i]).id@ != texture.id@ implies t.contains(
            textures[i],
        ) by {
            if i < p {
                assert(t[i] == textures[i]);
            } else {
                assert(t[i + 1] == textures[i]);
            }
        }
        assert forall|i: int| 0 <= i < t.len() && (#[trigger] t[i]).id@ != texture.id@ implies textures.contains(t[i]) by {
            if i < p {
                assert(t[i] == textures[i]);
            } else if i > p {
                assert(t[i] == textures[i - 1]);
            }
        }
        assert(t[p] == texture);
    }
}

/// The position of an id is at most the number of ids.
proof fn lemma_less_count_range(v: Seq<Seq<char>>, id: Seq<char>)
    ensures
        less_count(v, id) <= v.len(),
    decreases v.len(),
{
    if v.len() > 0 {
        lemma_less_count_range(v.drop_last(), id);
    }
}

/// The registry's textures, kept in order of their ids, each id once.
pub struct TextureList {
    entries: Vec<TextureEntry>,
}

impl View for TextureList {
    type V = Seq<TextureEntry>;

    closed spec fn view(&self) -> Seq<TextureEntry> {
        self.entries@
    }
}

fn texture_ids_of(textures: &Vec<TextureEntry>) -> (ids: Vec<String>)
    ensures
        ids@.map_values(|s: String| s@) == texture_ids(textures@),
{
    let mut ids: Vec<String> = Vec::new();
    let mut k: usize = 0;
    while k < textures.len()
        invariant
            k <= textures@.len(),
            ids@.len() == k,
            forall|j: int| 0 <= j < k ==> #[trigger] ids@[j]@ == textures@[j].id@,
        decreases textures@.len() - k,
    {
        ids.push(textures[k].id.clone());
        k = k + 1;
    }
    proof {
        assert(ids@.map_values(|s: String| s@) =~= texture_ids(textures@));
    }
    ids
}

impl TextureList {
    #[verifier::type_invariant]
    closed spec fn sorted(self) -> bool {
        ids_sorted(texture_ids(self.entries@))
    }

    /// No textures.
    pub fn new() -> (list: Self)
        ensures
            list@ == Seq::<TextureEntry>::empty(),
    {
        let list = TextureList { entries: Vec::new() };
        proof {
            assert(texture_ids(list.entries@) =~= Seq::<Seq<char>>::empty());
        }
        list
    }

    /// The textures, in order of their ids.
    pub fn entries(&self) -> (entries: &Vec<TextureEntry>)
        ensures
            entries@ == self@,
            ids_sorted(texture_ids(self@)),
    {
        proof {
            use_type_invariant(self);
        }
        &self.entries
    }

    /// Adds `texture`, or replaces the entry with its id, keeping the entries
    /// in order of their ids.
    pub fn upsert(&mut self, texture: TextureEntry)
        ensures
            ids_sorted(texture_ids(final(self)@)),
            final(self)@ == textures_with(old(self)@, texture),
            exists|i: int| 0 <= i < final(self)@.len() && final(self)@[i] == texture,
            forall|i: int| 0 <= i < final(self)@.len() && (#[trigger] final(self)@[i]).id@ == texture.id@ ==> final(self)@[i]
                == texture,
            forall|i: int| 0 <= i < old(self)@.len() && (#[trigger] old(self)@[i]).id@ != texture.id@ ==> final(self)@.contains(
                old(self)@[i],
            ),
            forall|i: int| 0 <= i < final(self)@.len() && (#[trigger] final(self)@[i]).id@ != texture.id@ ==> old(self)@.contains(
                final(self)@[i],
            ),
            final(self)@.len() == old(self)@.len() + if texture_ids(old(self)@).contains(texture.id@) {
                0int
            } else {
                1int
            },
    {
        proof {
            use_type_invariant(&*self);
        }
        let mut entries: Vec<TextureEntry> = Vec::new();
        std::mem::swap(&mut entries, &mut self.entries);
        let ids = texture_ids_of(&entries);
        let ghost v = texture_ids(entries@);
        let ghost id = texture.id@;
        match sorted_slot(&ids, texture.id.as_str()) {
            Ok(i) => {
                proof {
                    assert(v[i as int] == entries@[i as int].id@);
                }
                entries.set(i, texture);
                proof {
                    assert(texture_ids(entries@) =~= v);
                }
            },
            Err(i) => {
                proof {
                    if i < v.len() {
                        assert(v[i as int] == entries@[i as int].id@);
                    }
                    lemma_insert_keeps_sorted(v, id, i as int);
                }
                entries.insert(i, texture);
                proof {
                    assert(texture_ids(entries@) =~= v.insert(i as int, id));
                }
            },
        }
        self.entries = entries;
        proof {
            lemma_textures_with(old(self)@, texture);
            let t = textures_with(old(self)@, texture);
            let w = choose|i: int| 0 <= i < t.len() && t[i] == texture;
            assert(self@[w] == texture);
        }
    }

    /// Removes the entry with id `id`, if there is one.
    pub fn remove(&mut self, id: &str)
        ensures
            ids_sorted(texture_ids(final(self)@)),
            ({
                let p = less_count(texture_ids(old(self)@), id@) as int;
                if p < old(self)@.len() && old(self)@[p].id@ == id@ {
                    final(self)@ == old(self)@.remove(p)
                } else {
                    final(self)@ == old(self)@
                }
            }),
    {
        proof {
            use_type_invariant(&*self);
        }
        let mut entries: Vec<TextureEntry> = Vec::new();
        std::mem::swap(&mut entries, &mut self.entries);
        let ids = texture_ids_of(&entries);
        let ghost v = texture_ids(entries@);
        match sorted_slot(&ids, id) {
            Ok(i) => {
                proof {
                    assert(v[i as int] == entries@[i as int].id@);
                    lemma_remove_keeps_sorted(v, i as int);
                }
                entries.remove(i);
                proof {
                    assert(texture_ids(entries@) =~= v.remove(i as int));
                }
            },
            Err(i) => {
                proof {
                    if i < v.len() {
                        assert(v[i as int] == entries@[i as int].id@);
                    }
                }
            },
        }
        self.entries = entries;
    }
}

/// The biomes a new registry starts with.
pub fn default_biomes() -> (biomes: Vec<BiomeEntry>)
    ensures
        biomes@.len() == 3,
        biomes@[0].id@ == "dry"@ && biomes@[0].terrain_profile@ == "canyon"@ && biomes@[0].top_texture@ == "dirt"@
            && biomes@[0].side_texture@ == "dirt"@ && biomes@[0].bottom_texture@ == "stone"@,
        biomes@[1].id@ == "meadow"@ && biomes@[1].terrain_profile@ == "balanced"@ && biomes@[1].top_texture@
            == "grass_top"@ && biomes@[1].side_texture@ == "dirt"@ && biomes@[1].bottom_texture@ == "dirt"@,
        biomes@[2].id@ == "rocky"@ && biomes@[2].terrain_profile@ == "alpine"@ && biomes@[2].top_texture@
            == "stone"@ && biomes@[2].side_texture@ == "stone"@ && biomes@[2].bottom_texture@ == "stone"@,
        ids_sorted(biome_ids(biomes@)),
{
    let mut biomes: Vec<BiomeEntry> = Vec::new();
    biomes.push(
        BiomeEntry {
            id: String::from_str("dry"),
            terrain_profile: String::from_str("canyon"),
            top_texture: String::from_str("dirt"),
            side_texture: String::from_str("dirt"),
            bottom_texture: String::from_str("stone"),
        },
    );
    biomes.push(
        BiomeEntry {
            id: String::from_str("meadow"),
            terrain_profile: String::from_str("balanced"),
            top_texture: String::from_str("grass_top"),
            side_texture: String::from_str("dirt"),
            bottom_texture: String::from_str("dirt"),
        },
    );
    biomes.push(
        BiomeEntry {
            id: String::from_str("rocky"),
            terrain_profile: String::from_str("alpine"),
            top_texture: String::from_str("stone"),
            side_texture: String::from_str("stone"),
            bottom_texture: String::from_str("stone"),
        },
    );
    proof {
        reveal_strlit("dry");
        reveal_strlit("meadow");
        reveal_strlit("rocky");
        let v = biome_ids(biomes@);
        assert(v[0] == "dry"@ && v[1] == "meadow"@ && v[2] == "rocky"@);
        assert(text_less("dry"@, "meadow"@));
        assert(text_less("meadow"@, "rocky"@));
        lemma_text_less_transitive("dry"@, "meadow"@, "rocky"@);
    }
    biomes
}

/// The comma-separated fields of a registry line, each trimmed; nothing for
/// a blank line, a `#` comment or the `version=` line.
pub open spec fn registry_fields(line: Seq<char>) -> Option<Seq<Seq<char>>> {
    let t = trim(line);
    if t.len() == 0 || t[0] == '#' || starts_with(t, "version="@) {
        None
    } else {
        Some(split_on(t, ',').map_values(|f: Seq<char>| trim(f)))
    }
}

/// Splits a registry line into its trimmed fields (see `registry_fields`).
pub fn registry_line_fields(line: &str) -> (fields: Option<Vec<String>>)
    ensures
        match fields {
            Some(fs) => registry_fields(line@) == Some(fs@.map_values(|f: String| f@)),
            None => registry_fields(line@) is None,
        },
{
    let all = chars_of(line);
    let t = trim_chars(&all);
    if t.len() == 0 || t[0] == '#' || chars_start_with(&t, "version=") {
        return None;
    }
    let pieces = split_chars(&t, ',');
    let ghost want = split_on(t@, ',').map_values(|f: Seq<char>| trim(f));
    let mut fields: Vec<String> = Vec::new();
    let mut k: usize = 0;
    while k < pieces.len()
        invariant
            k <= pieces@.len(),
            pieces@.len() == split_on(t@, ',').len(),
            forall|j: int| 0 <= j < pieces@.len() ==> #[trigger] pieces@[j]@ == split_on(t@, ',')[j],
            want == split_on(t@, ',').map_values(|f: Seq<char>| trim(f)),
            fields@.len() == k,
            forall|j: int| 0 <= j < k ==> #[trigger] fields@[j]@ == want[j],
        decreases pieces@.len() - k,
    {
        let trimmed = trim_chars(&pieces[k]);
        fields.push(crate::text::string_of(&trimmed));
        k = k + 1;
    }
    proof {
        assert(fields@.map_values(|f: String| f@) =~= want);
    }
    Some(fields)
}

/// Why a registry line is refused.
#[derive(Clone, Copy, Debug, PartialEq, Eq, Structural)]
pub enum RegistryLineError {
    /// A `biome` line without exactly six fields.
    BiomeFieldCount,
    /// A `texture` line without exactly six fields.
    TextureFieldCount,
}

/// What a registry line asks for.
#[derive(Clone, Debug)]
pub enum RegistryLine {
    /// Nothing: blank, comment, version, or an unknown entry kind.
    Skipped,
    /// A biome was added or replaced.
    Biome,
    /// A texture entry with these six fields; the caller reads its tint.
    Texture(Vec<String>),
}

/// The biome entry spelled by six registry fields.
pub open spec fn biome_of_fields(fields: Seq<Seq<char>>, biome: BiomeEntry) -> bool {
    &&& biome.id@ == fields[1]
    &&& biome.terrain_profile@ == fields[2]
    &&& biome.top_texture@ == fields[3]
    &&& biome.side_texture@ == fields[4]
    &&& biome.bottom_texture@ == fields[5]
}

/// Reads one registry line: a `biome` line with six fields is added to
/// `biomes` (replacing the entry with its id); a `texture` line with six
/// fields comes back with its fields; a `biome` or `texture` line with
/// another number of fields is refused; blank lines, comments, the version line and unknown
/// kinds change nothing.
pub fn apply_registry_line(biomes: &mut Vec<BiomeEntry>, line: &str) -> (r: Result<RegistryLine, RegistryLineError>)
    requires
        ids_sorted(biome_ids(old(biomes)@)),
    ensures
        ids_sorted(biome_ids(final(biomes)@)),
        match registry_fields(line@) {
            None => r matches Ok(RegistryLine::Skipped) && final(biomes)@ == old(biomes)@,
            Some(fs) => if fs[0] == "biome"@ {
                if fs.len() != 6 {
                    r == Err::<RegistryLine, RegistryLineError>(RegistryLineError::BiomeFieldCount) && final(biomes)@
                        == old(biomes)@
                } else {
                    r matches Ok(RegistryLine::Biome) && exists|b: BiomeEntry| #[trigger]
                        biome_of_fields(fs, b) && ({
                            let p = less_count(biome_ids(old(biomes)@), b.id@) as int;
                            if p < old(biomes)@.len() && old(biomes)@[p].id@ == b.id@ {
                                final(biomes)@ == old(biomes)@.update(p, b)
                            } else {
                                final(biomes)@ == old(biomes)@.insert(p, b)
                            }
                        })
                }
            } else if fs[0] == "texture"@ {
                &&& final(biomes)@ == old(biomes)@
                &&& fs.len() != 6 ==> r == Err::<RegistryLine, RegistryLineError>(RegistryLineError::TextureFieldCount)
                &&& fs.len() == 6 ==> (r matches Ok(RegistryLine::Texture(got)) && got@.map_values(|f: String| f@) == fs)
            } else {
                r matches Ok(RegistryLine::Skipped) && final(biomes)@ == old(biomes)@
            },
        },
{
    let fields = match registry_line_fields(line) {
        Some(fs) => fs,
        None => {
            return Ok(RegistryLine::Skipped);
        },
    };
    let ghost fs = fields@.map_values(|f: String| f@);
    proof {
        let t = trim(line@);
        crate::text::lemma_split_on_nonempty(t, ',');
        assert(registry_fields(line@) == Some(split_on(t, ',').map_values(|f: Seq<char>| trim(f))));
        assert(fs.len() == split_on(t, ',').len());
        assert(fields@.len() >= 1);
    }
    let kind = chars_of(fields[0].as_str());
    if chars_eq(&kind, "biome") {
        if fields.len() != 6 {
            return Err(RegistryLineError::BiomeFieldCount);
        }
        let biome = BiomeEntry {
            id: fields[1].clone(),
            terrain_profile: fields[2].clone(),
            top_texture: fields[3].clone(),
            side_texture: fields[4].clone(),
            bottom_texture: fields[5].clone(),
        };
        let ghost b = biome;
        proof {
            assert(biome_of_fields(fs, b));
        }
        upsert_biome(biomes, biome);
        Ok(RegistryLine::Biome)
    } else if chars_eq(&kind, "texture") {
        if fields.len() != 6 {
            return Err(RegistryLineError::TextureFieldCount);
        }
        Ok(RegistryLine::Texture(fields))
    } else {
        Ok(RegistryLine::Skipped)
    }
}

} // verus!

verus! {

/// Pieces joined by single commas.
pub open spec fn comma_join(pieces: Seq<Seq<char>>) -> Seq<char>
    decreases pieces.len(),
{
    if pieces.len() <= 1 {
        if pieces.len() == 1 {
            pieces[0]
        } else {
            Seq::empty()
        }
    } else {
        comma_join(pieces.drop_last()) + seq![','] + pieces.last()
    }
}

/// The fields of the registry line of a biome, the kind first.
pub open spec fn biome_fields(b: BiomeEntry) -> Seq<Seq<char>> {
    seq!["biome"@, b.id@, b.terrain_profile@, b.top_texture@, b.side_texture@, b.bottom_texture@]
}

/// A field that reads back as itself: no comma, and no white space at
/// either end.
pub open spec fn clean_field(f: Seq<char>) -> bool {
    &&& forall|i: int| 0 <= i < f.len() ==> f[i] != ','
    &&& f.len() > 0 ==> !crate::text::is_white_space(f[0]) && !crate::text::is_white_space(f.last())
}

proof fn lemma_split_on_plain(x: Seq<char>, t: Seq<char>)
    requires
        forall|i: int| 0 <= i < t.len() ==> t[i] != ',',
    ensures
        split_on(x + t, ',') == split_on(x, ',').update(
            split_on(x, ',').len() - 1,
            split_on(x, ',').last() + t,
        ),
        split_on(x + t, ',').len() == split_on(x, ',').len(),
    decreases t.len(),
{
    crate::text::lemma_split_on_nonempty(x, ',');
    if t.len() == 0 {
        assert(x + t =~= x);
        let f = split_on(x, ',');
        assert(f.last() + t =~= f.last());
        assert(f.update(f.len() - 1, f.last()) =~= f);
    } else {
        let t0 = t.drop_last();
        lemma_split_on_plain(x, t0);
        assert((x + t).drop_last() =~= x + t0);
        assert((x + t).last() == t.last());
        let f = split_on(x, ',');
        let g = split_on(x + t0, ',');
        assert(g.last() == f.last() + t0);
        assert(g.last().push(t.last()) =~= f.last() + t);
        assert(g.update(g.len() - 1, g.last().push(t.last())) =~= f.update(f.len() - 1, f.last() + t));
    }
}

proof fn lemma_split_comma_join(pieces: Seq<Seq<char>>)
    requires
        pieces.len() >= 1,
        forall|k: int| 0 <= k < pieces.len() ==> clean_field(#[trigger] pieces[k]),
    ensures
        split_on(comma_join(pieces), ',') == pieces,
    decreases pieces.len(),
{
    if pieces.len() == 1 {
        lemma_split_on_plain(Seq::empty(), pieces[0]);
        assert(Seq::<char>::empty() + pieces[0] =~= pieces[0]);
        assert(split_on(Seq::<char>::empty(), ',') == seq![Seq::<char>::empty()]);
        assert(Seq::<char>::empty() + pieces[0] =~= pieces[0]);
        assert(seq![Seq::<char>::empty()].update(0, pieces[0]) =~= pieces);
    } else {
        let rest = pieces.drop_last();
        assert forall|k: int| 0 <= k < rest.len() implies clean_field(#[trigger] rest[k]) by {
            assert(rest[k] == pieces[k]);
        }
        lemma_split_comma_join(rest);
        let head = comma_join(rest) + seq![','];
        assert(head.drop_last() =~= comma_join(rest));
        assert(split_on(head, ',') == split_on(comma_join(rest), ',').push(Seq::empty()));
        assert(clean_field(pieces.last()));
        lemma_split_on_plain(head, pieces.last());
        assert(comma_join(pieces) =~= head + pieces.last());
        let f = rest.push(Seq::<char>::empty());
        assert(f.last() + pieces.last() =~= pieces.last());
        assert(f.update(f.len() - 1, pieces.last()) =~= pieces);
    }
}

/// A biome whose fields are clean (see `clean_field`) reads back from its
/// registry line as the same fields: what `biome_line` writes,
/// `apply_registry_line` reads back as the same biome.
pub proof fn lemma_biome_line_reads_back(b: BiomeEntry)
    requires
        forall|k: int| 0 <= k < 6 ==> clean_field(#[trigger] biome_fields(b)[k]),
    ensures
        registry_fields(comma_join(biome_fields(b))) == Some(biome_fields(b)),
{
    reveal_strlit("biome");
    reveal_strlit("version=");
    let fs = biome_fields(b);
    let line = comma_join(fs);
    lemma_split_comma_join(fs);
    // The line starts with the kind and ends with the last field or a comma.
    let pre5 = comma_join(fs.drop_last());
    assert(line =~= pre5 + seq![','] + fs[5]);
    let f4 = fs.drop_last();
    let f3 = f4.drop_last();
    let f2 = f3.drop_last();
    let f1 = f2.drop_last();
    assert(f1 =~= seq!["biome"@, b.id@]);
    assert(comma_join(f1.drop_last()) == "biome"@);
    assert(comma_join(f1) =~= "biome"@ + seq![','] + b.id@);
    assert(comma_join(f2) =~= comma_join(f1) + seq![','] + fs[2]);
    assert(comma_join(f3) =~= comma_join(f2) + seq![','] + fs[3]);
    assert(comma_join(f4) =~= comma_join(f3) + seq![','] + fs[4]);
    assert(line[0] == 'b');
    if fs[5].len() > 0 {
        assert(line.last() == fs[5].last());
    } else {
        assert(line.last() == ',');
    }
    assert(trim(line) == line) by {
        assert(crate::text::trim_start(line) == line);
        assert(crate::text::trim_end(line) == line);
    }
    assert(!starts_with(line, "version="@)) by {
        if starts_with(line, "version="@) {
            assert(line.take(8)[0] == 'v');
        }
    }
    assert forall|k: int| 0 <= k < fs.len() implies trim(#[trigger] fs[k]) == fs[k] by {
        assert(clean_field(fs[k]));
        if fs[k].len() > 0 {
            assert(crate::text::trim_start(fs[k]) == fs[k]);
            assert(crate::text::trim_end(fs[k]) == fs[k]);
        }
    }
    assert(split_on(line, ',').map_values(|f: Seq<char>| trim(f)) =~= fs);
}

/// The registry line of a biome (see `biome_fields`).
pub fn biome_line(b: &BiomeEntry) -> (line: String)
    ensures
        line@ == comma_join(biome_fields(*b)),
{
    let mut line = String::from_str("biome");
    line.append(",");
    line.append(b.id.as_str());
    line.append(",");
    line.append(b.terrain_profile.as_str());
    line.append(",");
    line.append(b.top_texture.as_str());
    line.append(",");
    line.append(b.side_texture.as_str());
    line.append(",");
    line.append(b.bottom_texture.as_str());
    proof {
        reveal_strlit(",");
        let fs = biome_fields(*b);
        let f4 = fs.drop_last();
        let f3 = f4.drop_last();
        let f2 = f3.drop_last();
        let f1 = f2.drop_last();
        assert(","@ =~= seq![',']);
        assert(comma_join(f1.drop_last()) == "biome"@);
        assert(comma_join(f1) =~= "biome"@ + seq![','] + fs[1]);
        assert(comma_join(f2) =~= comma_join(f1) + seq![','] + fs[2]);
        assert(comma_join(f3) =~= comma_join(f2) + seq![','] + fs[3]);
        assert(comma_join(f4) =~= comma_join(f3) + seq![','] + fs[4]);
        assert(comma_join(fs) =~= comma_join(f4) + seq![','] + fs[5]);
        assert(line@ =~= comma_join(fs));
    }
    line
}

} // verus!
