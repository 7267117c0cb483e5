//! Raw flat records: string-to-string field lists, the reserved keys, and
//! classification into the four fixed (geography, category) buckets.

use vstd::prelude::*;
use vstd::string::StringExecFns;

verus! {

/// One flat record of a dataset: field names mapped to string values.
/// Lookup takes the first binding of a key; a dataset decoded from an
/// object notation has each key at most once.
pub struct RawRecord {
    pub fields: Vec<(String, String)>,
}

/// The four tracked combinations of geography and category.
#[derive(Clone, Copy, PartialEq, Eq, Structural, Debug)]
pub enum Bucket {
    BayCases,
    BayDeaths,
    CalCases,
    CalDeaths,
}

/// The value of the first binding of `key` in `fields`, if any.
pub open spec fn rec_lookup(fields: Seq<(String, String)>, key: Seq<char>) -> Option<Seq<char>>
    decreases fields.len(),
{
    if fields.len() == 0 {
        None
    } else if fields[0].0@ == key {
        Some(fields[0].1@)
    } else {
        rec_lookup(fields.drop_first(), key)
    }
}

/// The bucket a record belongs to: an exact match of its geography and
/// category fields, or none.
pub open spec fn spec_classify(fields: Seq<(String, String)>) -> Option<Bucket> {
    match (rec_lookup(fields, "GEOGRAPHY"@), rec_lookup(fields, "CATEGORY"@)) {
        (Some(g), Some(c)) => if g == "BAY AREA"@ && c == "cases"@ {
            Some(Bucket::BayCases)
        } else if g == "BAY AREA"@ && c == "deaths"@ {
            Some(Bucket::BayDeaths)
        } else if g == "CALIFORNIA"@ && c == "cases"@ {
            Some(Bucket::CalCases)
        } else if g == "CALIFORNIA"@ && c == "deaths"@ {
            Some(Bucket::CalDeaths)
        } else {
            None
        },
        _ => None,
    }
}

impl RawRecord {
    /// An empty record.
    pub fn new() -> (r: RawRecord)
        ensures
            r.fields@.len() == 0,
    {
        RawRecord { fields: Vec::new() }
    }

    /// Appends a field binding.
    pub fn push_field(&mut self, key: String, value: String)
        ensures
            final(self).fields@ == old(self).fields@.push((key, value)),
    {
        self.fields.push((key, value));
    }

    /// Looks up the first binding of `key`.
    pub fn get<'a>(&'a self, key: &String) -> (r: Option<&'a String>)
        ensures
            match r {
                Some(v) => rec_lookup(self.fields@, key@) == Some(v@),
                None => rec_lookup(self.fields@, key@) is None,
            },
    {
        let n = self.fields.len();
        let mut i: usize = 0;
        proof {
            assert(self.fields@.skip(0) =~= self.fields@);
        }
        while i < n
            invariant
                0 <= i <= n,
                n == self.fields@.len(),
                rec_lookup(self.fields@.skip(i as int), key@) == rec_lookup(self.fields@, key@),
            decreases n - i,
        {
            proof {
                assert(self.fields@.skip(i as int)[0] == self.fields@[i as int]);
                assert(self.fields@.skip(i as int).drop_first() =~= self.fields@.skip(i + 1));
            }
            if self.fields[i].0 == *key {
                return Some(&self.fields[i].1);
            }
            i = i + 1;
        }
        proof {
            assert(self.fields@.skip(n as int) =~= Seq::<(String, String)>::empty());
        }
        None
    }

    /// Classifies this record into a bucket by its geography and category.
    pub fn classify(&self) -> (r: Option<Bucket>)
        ensures
            r == spec_classify(self.fields@),
    {
        let geo_key = String::from_str("GEOGRAPHY");
        let cat_key = String::from_str("CATEGORY");
        let g = self.get(&geo_key);
        let c = self.get(&cat_key);
        match (g, c) {
            (Some(g), Some(c)) => {
                let bay = String::from_str("BAY AREA");
                let cal = String::from_str("CALIFORNIA");
                let cases = String::from_str("cases");
                let deaths = String::from_str("deaths");
                if *g == bay && *c == cases {
                    Some(Bucket::BayCases)
                } else if *g == bay && *c == deaths {
                    Some(Bucket::BayDeaths)
                } else if *g == cal && *c == cases {
                    Some(Bucket::CalCases)
                } else if *g == cal && *c == deaths {
                    Some(Bucket::CalDeaths)
                } else {
                    None
                }
            },
            _ => None,
        }
    }
}

} // verus!
