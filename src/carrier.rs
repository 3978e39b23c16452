//! Call metadata as the propagation codec sees it: names matched without
//! regard to ASCII case, each with a text value.
use vstd::prelude::*;
use vstd::string::is_ascii_spec_bytes;
use crate::hex::low_bytes;

verus! {

pub open spec fn fold_byte(x: u8) -> u8 {
    if 65 <= x && x <= 90 {
        (x + 32) as u8
    } else {
        x
    }
}

/// Two ASCII names match when they are equal but for ASCII case; any other
/// names match when they are equal.
pub open spec fn names_match(a: Seq<char>, b: Seq<char>) -> bool {
    if vstd::utf8::is_ascii_chars(a) && vstd::utf8::is_ascii_chars(b) {
        a.len() == b.len() && forall|i: int|
            0 <= i < a.len() ==> fold_byte(#[trigger] low_bytes(a)[i]) == fold_byte(low_bytes(b)[i])
    } else {
        a == b
    }
}

/// The value of the first entry whose name matches `key`.
pub open spec fn lookup(entries: Seq<(Seq<char>, Seq<char>)>, key: Seq<char>) -> Option<Seq<char>>
    decreases entries.len(),
{
    if entries.len() == 0 {
        None
    } else if names_match(entries[0].0, key) {
        Some(entries[0].1)
    } else {
        lookup(entries.drop_first(), key)
    }
}

/// Whether `e`'s name differs from `key`.
pub open spec fn other_name(key: Seq<char>) -> spec_fn((Seq<char>, Seq<char>)) -> bool {
    |e: (Seq<char>, Seq<char>)| !names_match(e.0, key)
}

pub proof fn lemma_names_match_reflexive(a: Seq<char>)
    ensures
        names_match(a, a),
{
}

pub proof fn lemma_names_match_symmetric(a: Seq<char>, b: Seq<char>)
    ensures
        names_match(a, b) == names_match(b, a),
{
}

/// Whether `n` is the name of one of the first `bound` entries.
pub open spec fn named_before(n: Seq<char>, entries: Seq<(Seq<char>, Seq<char>)>, bound: int) -> bool {
    exists|k: int| 0 <= k < bound && k < entries.len() && #[trigger] entries[k].0 == n
}

/// Whether `n` matches one of `names`.
pub open spec fn named_in(n: Seq<char>, names: Seq<&str>) -> bool {
    exists|i: int| 0 <= i < names.len() && names_match(n, #[trigger] names[i]@)
}

/// Behind entries that do not match `key`, the lookup finds the one after them.
pub proof fn lemma_lookup_skips(s: Seq<(Seq<char>, Seq<char>)>, e: (Seq<char>, Seq<char>), key: Seq<char>)
    requires
        forall|i: int| 0 <= i < s.len() ==> !names_match(#[trigger] s[i].0, key),
    ensures
        lookup(s.push(e), key) == lookup(seq![e], key),
    decreases s.len(),
{
    if s.len() > 0 {
        assert(s.push(e).drop_first() =~= s.drop_first().push(e));
        assert(!names_match(s[0].0, key));
        lemma_lookup_skips(s.drop_first(), e, key);
    } else {
        assert(s.push(e) =~= seq![e]);
    }
}

pub struct Entry {
    pub name: String,
    pub value: String,
}

/// The metadata of one call.
pub struct Carrier {
    pub entries: Vec<Entry>,
}

impl View for Carrier {
    type V = Seq<(Seq<char>, Seq<char>)>;

    open spec fn view(&self) -> Seq<(Seq<char>, Seq<char>)> {
        Seq::new(self.entries@.len(), |i: int| (self.entries@[i].name@, self.entries@[i].value@))
    }
}

/// Whether two names match (see `names_match`).
pub fn name_matches(a: &str, b: &str) -> (r: bool)
    ensures
        r == names_match(a@, b@),
{
    if a.is_ascii() && b.is_ascii() {
        let x = a.as_bytes();
        let y = b.as_bytes();
        proof {
            is_ascii_spec_bytes(a);
            is_ascii_spec_bytes(b);
            assert(x@ =~= low_bytes(a@));
            assert(y@ =~= low_bytes(b@));
        }
        if x.len() != y.len() {
            return false;
        }
        let mut i: usize = 0;
        while i < x.len()
            invariant
                i <= x@.len(),
                x@.len() == y@.len(),
                x@ == low_bytes(a@),
                y@ == low_bytes(b@),
                forall|k: int| 0 <= k < i ==> fold_byte(#[trigger] x@[k]) == fold_byte(y@[k]),
            decreases x@.len() - i,
        {
            let p = if 65 <= x[i] && x[i] <= 90 { x[i] + 32 } else { x[i] };
            let q = if 65 <= y[i] && y[i] <= 90 { y[i] + 32 } else { y[i] };
            if p != q {
                return false;
            }
            i = i + 1;
        }
        true
    } else {
        let ghost ascii = vstd::utf8::is_ascii_chars(a@) && vstd::utf8::is_ascii_chars(b@);
        assert(!ascii);
        let x = a.to_owned();
        let y = b.to_owned();
        x == y
    }
}

impl Carrier {
    pub fn new() -> (r: Carrier)
        ensures
            r@ == Seq::<(Seq<char>, Seq<char>)>::empty(),
    {
        let r = Carrier { entries: Vec::new() };
        assert(r@ =~= Seq::<(Seq<char>, Seq<char>)>::empty());
        r
    }

    /// The value of the first entry whose name matches `key`.
    pub fn get(&self, key: &str) -> (r: Option<&str>)
        ensures
            r.is_some() == lookup(self@, key@).is_some(),
            r.is_some() ==> r.unwrap()@ == lookup(self@, key@).unwrap(),
    {
        let mut i: usize = 0;
        assert(self@.subrange(0, self@.len() as int) =~= self@);
        while i < self.entries.len()
            invariant
                i <= self@.len(),
                lookup(self@, key@) == lookup(self@.subrange(i as int, self@.len() as int), key@),
            decreases self@.len() - i,
        {
            proof {
                let rest = self@.subrange(i as int, self@.len() as int);
                assert(rest.drop_first() =~= self@.subrange(i + 1, self@.len() as int));
                assert(rest[0] == self@[i as int]);
            }
            if name_matches(self.entries[i].name.as_str(), key) {
                return Some(self.entries[i].value.as_str());
            }
            i = i + 1;
        }
        None
    }

    /// Each distinct name once, in order of first appearance; names that
    /// match one another count as one.
    pub fn keys(&self) -> (r: Vec<&str>)
        ensures
            forall|i: int, j: int|
                0 <= i < r@.len() && 0 <= j < r@.len() && i != j ==> !names_match(
                    #[trigger] r@[i]@,
                    #[trigger] r@[j]@,
                ),
            forall|i: int| 0 <= i < r@.len() ==> named_before(#[trigger] r@[i]@, self@, self@.len() as int),
            forall|k: int| 0 <= k < self@.len() ==> named_in(#[trigger] self@[k].0, r@),
    {
        let mut r: Vec<&str> = Vec::new();
        let mut i: usize = 0;
        while i < self.entries.len()
            invariant
                i <= self@.len(),
                forall|x: int, y: int|
                    0 <= x < r@.len() && 0 <= y < r@.len() && x != y ==> !names_match(
                        #[trigger] r@[x]@,
                        #[trigger] r@[y]@,
                    ),
                forall|x: int| 0 <= x < r@.len() ==> named_before(#[trigger] r@[x]@, self@, i as int),
                forall|k: int| 0 <= k < i ==> named_in(#[trigger] self@[k].0, r@),
            decreases self@.len() - i,
        {
            let name = self.entries[i].name.as_str();
            let mut seen = false;
            let mut j: usize = 0;
            while j < r.len()
                invariant
                    j <= r@.len(),
                    i < self@.len(),
                    name@ == self@[i as int].0,
                    !seen ==> forall|x: int| 0 <= x < j ==> !names_match(#[trigger] r@[x]@, name@),
                    seen ==> named_in(self@[i as int].0, r@),
                decreases r@.len() - j,
            {
                if !seen && name_matches(r[j], name) {
                    proof {
                        lemma_names_match_symmetric(r@[j as int]@, name@);
                    }
                    seen = true;
                }
                j = j + 1;
            }
            if !seen {
                let ghost before = r@;
                r.push(name);
                proof {
                    assert forall|x: int, y: int|
                        0 <= x < r@.len() && 0 <= y < r@.len() && x != y implies !names_match(
                        #[trigger] r@[x]@,
                        #[trigger] r@[y]@,
                    ) by {
                        if y == before.len() {
                            assert(r@[x] == before[x]);
                        } else if x == before.len() {
                            assert(r@[y] == before[y]);
                            lemma_names_match_symmetric(r@[x]@, r@[y]@);
                        } else {
                            assert(r@[x] == before[x] && r@[y] == before[y]);
                        }
                    }
                    assert forall|x: int| 0 <= x < r@.len() implies named_before(
                        #[trigger] r@[x]@,
                        self@,
                        i + 1,
                    ) by {
                        if x < before.len() {
                            assert(r@[x] == before[x]);
                            assert(named_before(before[x]@, self@, i as int));
                        } else {
                            assert(r@[x]@ == self@[i as int].0);
                        }
                    }
                    assert forall|k: int| 0 <= k < i + 1 implies named_in(#[trigger] self@[k].0, r@) by {
                        if k < i {
                            let x = choose|x: int| 0 <= x < before.len() && names_match(self@[k].0, #[trigger] before[x]@);
                            assert(r@[x] == before[x]);
                        } else {
                            lemma_names_match_reflexive(self@[k].0);
                            assert(r@[before.len() as int]@ == self@[k].0);
                        }
                    }
                }
            }
            i = i + 1;
        }
        r
    }

    /// Replaces every entry whose name matches `key` by one entry
    /// `(key, value)`, placed last.
    pub fn set(&mut self, key: &str, value: &str)
        ensures
            final(self)@ == old(self)@.filter(other_name(key@)).push((key@, value@)),
    {
        let ghost pred = other_name(key@);
        let mut kept = Carrier { entries: Vec::new() };
        assert(kept@ =~= self@.subrange(0, 0).filter(pred));
        let mut i: usize = 0;
        while i < self.entries.len()
            invariant
                i <= self@.len(),
                self@ == old(self)@,
                pred == other_name(key@),
                kept@ == self@.subrange(0, i as int).filter(pred),
            decreases self@.len() - i,
        {
            let ghost before = kept@;
            proof {
                self@.subrange(0, i as int).lemma_filter_push(self@[i as int], pred);
                assert(self@.subrange(0, i + 1) =~= self@.subrange(0, i as int).push(self@[i as int]));
                assert(self@[i as int].0 == self.entries@[i as int].name@);
                assert(pred(self@[i as int]) == !names_match(self@[i as int].0, key@));
            }
            if !name_matches(self.entries[i].name.as_str(), key) {
                let e = Entry {
                    name: self.entries[i].name.clone(),
                    value: self.entries[i].value.clone(),
                };
                kept.entries.push(e);
                assert(kept@ =~= before.push(self@[i as int]));
            } else {
                assert(kept@ =~= before);
            }
            i = i + 1;
        }
        assert(self@.subrange(0, i as int) =~= self@);
        let ghost filtered = kept@;
        kept.entries.push(Entry { name: key.to_owned(), value: value.to_owned() });
        assert(kept@ =~= filtered.push((key@, value@)));
        *self = kept;
    }
}

} // verus!
