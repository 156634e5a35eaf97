//! Authorization records: for each user the autonomous system it may
//! announce from and the prefixes it may announce, with the lookup that
//! finds the record of an email.

use vstd::prelude::*;
use vstd::hash_map::StringHashMap;

verus! {

/// The routing authorization of one user.
#[derive(Debug, Clone)]
pub struct UserMapping {
    pub user_hash: String,
    pub user_id: String,
    pub email: Option<String>,
    pub asn: u32,
    pub prefixes: Vec<String>,
}

/// An authorization record as plain values; the prefixes keep their order.
pub struct MappingView {
    pub user_hash: Seq<char>,
    pub user_id: Seq<char>,
    pub email: Option<Seq<char>>,
    pub asn: nat,
    pub prefixes: Seq<Seq<char>>,
}

impl View for UserMapping {
    type V = MappingView;

    open spec fn view(&self) -> MappingView {
        MappingView {
            user_hash: self.user_hash@,
            user_id: self.user_id@,
            email: self.email.deep_view(),
            asn: self.asn as nat,
            prefixes: self.prefixes.deep_view(),
        }
    }
}

impl DeepView for UserMapping {
    type V = MappingView;

    open spec fn deep_view(&self) -> MappingView {
        self@
    }
}

/// The record that is authoritative for each email: records are entered in
/// the order given, one without an email is passed over, and a later record
/// replaces an earlier one of the same email.
pub open spec fn mapping_lookup(mappings: Seq<MappingView>) -> Map<Seq<char>, MappingView>
    decreases mappings.len(),
{
    if mappings.len() == 0 {
        Map::empty()
    } else {
        let earlier = mapping_lookup(mappings.drop_last());
        match mappings.last().email {
            Some(email) => earlier.insert(email, mappings.last()),
            None => earlier,
        }
    }
}

/// Whether position `i` holds a record of `email`.
pub open spec fn carries(mappings: Seq<MappingView>, email: Seq<char>, i: int) -> bool {
    0 <= i < mappings.len() && mappings[i].email == Some(email)
}

/// Whether position `i` holds the last record of `email`.
pub open spec fn is_last_of(mappings: Seq<MappingView>, email: Seq<char>, i: int) -> bool {
    carries(mappings, email, i) && forall|j: int| i < j ==> !carries(mappings, email, j)
}

/// An email is in the lookup exactly when some record carries it.
pub proof fn lemma_lookup_has_carried(mappings: Seq<MappingView>, email: Seq<char>)
    ensures
        mapping_lookup(mappings).contains_key(email) <==> exists|i: int|
            carries(mappings, email, i),
    decreases mappings.len(),
{
    if mappings.len() > 0 {
        let earlier = mappings.drop_last();
        let last: int = mappings.len() - 1;
        lemma_lookup_has_carried(earlier, email);
        if mappings[last].email == Some(email) {
            assert(carries(mappings, email, last));
        } else if mapping_lookup(mappings).contains_key(email) {
            let i: int = choose|i: int| carries(earlier, email, i);
            assert(carries(mappings, email, i));
        } else if exists|i: int| carries(mappings, email, i) {
            let i: int = choose|i: int| carries(mappings, email, i);
            assert(carries(earlier, email, i));
        }
    }
}

/// The record found for an email is the last one that carries it: a later
/// record replaces an earlier one.
pub proof fn lemma_lookup_keeps_last(mappings: Seq<MappingView>, email: Seq<char>, i: int)
    requires
        is_last_of(mappings, email, i),
    ensures
        mapping_lookup(mappings).contains_key(email),
        mapping_lookup(mappings)[email] == mappings[i],
    decreases mappings.len(),
{
    let earlier = mappings.drop_last();
    let last: int = mappings.len() - 1;
    if i < last {
        assert(!carries(mappings, email, last));
        assert forall|j: int| i < j implies !carries(earlier, email, j) by {
            assert(!carries(mappings, email, j));
        }
        assert(carries(earlier, email, i));
        lemma_lookup_keeps_last(earlier, email, i);
    }
}

/// The lookup of a list of records, ready to be asked for an email.
pub struct MappingLookup<'a> {
    mappings: &'a [UserMapping],
    positions: StringHashMap<usize>,
}

impl<'a> MappingLookup<'a> {
    /// Every position entered for an email is one of a record.
    #[verifier::type_invariant]
    spec fn positions_in_range(self) -> bool {
        forall|email: Seq<char>| #[trigger]
            self.positions@.contains_key(email) ==> self.positions@[email] < self.mappings@.len()
    }

    /// The records found, by email.
    pub closed spec fn view(&self) -> Map<Seq<char>, MappingView> {
        Map::new(
            |email: Seq<char>| self.positions@.contains_key(email),
            |email: Seq<char>| self.mappings@[self.positions@[email] as int]@,
        )
    }

    /// Enters the records in the order given.
    pub fn build(mappings: &'a [UserMapping]) -> (lookup: Self)
        ensures
            lookup@ == mapping_lookup(mappings.deep_view()),
    {
        let ghost records = mappings.deep_view();
        let mut positions: StringHashMap<usize> = StringHashMap::new();
        let mut i: usize = 0;
        while i < mappings.len()
            invariant
                i <= mappings.len(),
                records == mappings.deep_view(),
                positions@.dom() =~= mapping_lookup(records.take(i as int)).dom(),
                forall|email: Seq<char>| #[trigger]
                    positions@.contains_key(email) ==> positions@[email] < i
                        && records[positions@[email] as int] == mapping_lookup(
                        records.take(i as int),
                    )[email],
            decreases mappings.len() - i,
        {
            proof {
                let next = records.take(i + 1);
                assert(next.drop_last() =~= records.take(i as int));
                assert(next.last() == mappings[i as int]@);
            }
            match &mappings[i].email {
                Some(email) => {
                    positions.insert(email.clone(), i);
                },
                None => {},
            }
            i += 1;
        }
        proof {
            assert(records.take(mappings.len() as int) =~= records);
        }
        let lookup = MappingLookup { mappings, positions };
        proof {
            assert(lookup@ =~= mapping_lookup(records));
        }
        lookup
    }

    /// The record that is authoritative for `email`, `None` when no record
    /// carries that email.
    pub fn get(&self, email: &str) -> (found: Option<&'a UserMapping>)
        ensures
            found.deep_view() == (if self@.contains_key(email@) {
                Some(self@[email@])
            } else {
                None
            }),
    {
        proof {
            use_type_invariant(self);
        }
        match self.positions.get(email) {
            Some(position) => Some(&self.mappings[*position]),
            None => None,
        }
    }
}

} // verus!
