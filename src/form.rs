//! The token-request form: a flat mapping from field names to string values.
use vstd::prelude::*;

verus! {

/// The field that always carries the proxy's own client secret.
pub open spec fn secret_key() -> Seq<char> {
    "client_secret"@
}

/// The mapping that a list of fields denotes; a later field wins over an
/// earlier one with the same name.
pub open spec fn fields_map(s: Seq<(String, String)>) -> Map<Seq<char>, Seq<char>>
    decreases s.len(),
{
    if s.len() == 0 {
        Map::empty()
    } else {
        fields_map(s.drop_last()).insert(s.last().0@, s.last().1@)
    }
}

/// The fields of `s` whose name is not `k`, in order.
pub open spec fn without_key(s: Seq<(String, String)>, k: Seq<char>) -> Seq<(String, String)>
    decreases s.len(),
{
    if s.len() == 0 {
        Seq::empty()
    } else if s.last().0@ == k {
        without_key(s.drop_last(), k)
    } else {
        without_key(s.drop_last(), k).push(s.last())
    }
}

proof fn lemma_without_key(s: Seq<(String, String)>, k: Seq<char>)
    ensures
        fields_map(without_key(s, k)) == fields_map(s).remove(k),
        forall|i: int| 0 <= i < without_key(s, k).len() ==> #[trigger] without_key(s, k)[i].0@ != k,
    decreases s.len(),
{
    if s.len() == 0 {
        assert(fields_map(without_key(s, k)) =~= fields_map(s).remove(k));
        assert(without_key(s, k).len() == 0);
    } else {
        let w = without_key(s.drop_last(), k);
        lemma_without_key(s.drop_last(), k);
        if s.last().0@ == k {
            assert(without_key(s, k) == w);
            assert(forall|i: int| 0 <= i < w.len() ==> #[trigger] w[i].0@ != k);
            assert(fields_map(s).remove(k) =~= fields_map(s.drop_last()).remove(k));
        } else {
            let w2 = w.push(s.last());
            assert(without_key(s, k) == w2);
            assert(w2.drop_last() =~= w);
            assert(fields_map(w2) =~= fields_map(s).remove(k));
            assert forall|i: int| 0 <= i < w2.len() implies #[trigger] w2[i].0@ != k by {
                if i < w.len() {
                    assert(w2[i] == w[i]);
                    assert(w[i].0@ != k);
                } else {
                    assert(w2[i] == s.last());
                }
            }
        }
    }
}

/// A token-request form: its fields in order. Where a name repeats, the last
/// value is the one the form holds.
pub struct Form {
    pub fields: Vec<(String, String)>,
}

impl View for Form {
    type V = Map<Seq<char>, Seq<char>>;

    open spec fn view(&self) -> Map<Seq<char>, Seq<char>> {
        fields_map(self.fields@)
    }
}

impl Form {
    /// A form with the given fields; where a name repeats, the last value counts.
    pub fn from_fields(fields: Vec<(String, String)>) -> (r: Form)
        ensures
            r@ == fields_map(fields@),
            r.fields@ == fields@,
    {
        Form { fields }
    }

    /// The form with field `key` set to `value`: any earlier value of that
    /// field is dropped and the field stands last, once.
    pub fn set_field(self, key: &str, value: String) -> (r: Form)
        ensures
            r@ == self@.insert(key@, value@),
            r.fields@.len() > 0,
            r.fields@.last().0@ == key@,
            r.fields@.last().1@ == value@,
            forall|i: int| 0 <= i < r.fields@.len() - 1 ==> #[trigger] r.fields@[i].0@ != key@,
    {
        let ghost k = key@;
        let ghost s = self.fields@;
        let fields = self.fields;
        let key_owned = key.to_owned();
        let mut kept: Vec<(String, String)> = Vec::new();
        let n = fields.len();
        let mut i: usize = 0;
        while i < n
            invariant
                n == s.len(),
                fields@ == s,
                key_owned@ == k,
                i <= n,
                kept@ == without_key(s.subrange(0, i as int), k),
            decreases n - i,
        {
            let same = fields[i].0 == key_owned;
            proof {
                assert(s.subrange(0, i as int + 1).drop_last() =~= s.subrange(0, i as int));
            }
            if !same {
                kept.push((fields[i].0.clone(), fields[i].1.clone()));
            }
            i = i + 1;
        }
        proof {
            assert(s.subrange(0, n as int) =~= s);
            lemma_without_key(s, k);
        }
        let ghost w = kept@;
        kept.push((key_owned, value));
        proof {
            assert(kept@.drop_last() =~= w);
            assert(fields_map(kept@) =~= fields_map(s).remove(k).insert(k, kept@.last().1@));
            assert(fields_map(s).remove(k).insert(k, kept@.last().1@) =~= fields_map(s).insert(
                k,
                kept@.last().1@,
            ));
            assert forall|j: int| 0 <= j < kept@.len() - 1 implies #[trigger] kept@[j].0@ != k by {
                assert(kept@[j] == w[j]);
            }
        }
        Form { fields: kept }
    }
}

} // verus!
