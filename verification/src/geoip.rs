//! Where an address is located, as far as the location database knows.
use vstd::prelude::*;

verus! {

/// The country and city of an address, in English, or `"Unknown"`.
#[derive(Debug, Clone)]
pub struct GeoInfo {
    pub country: String,
    pub city: String,
}

/// The name listed under the language code `"en"` in `names` (pairs of
/// language code and name), the first one if there are several.
pub open spec fn english_name(names: Seq<(String, String)>) -> Option<Seq<char>>
    decreases names.len(),
{
    if names.len() == 0 {
        None
    } else if names[0].0@ == "en"@ {
        Some(names[0].1@)
    } else {
        english_name(names.drop_first())
    }
}

/// The English name among the names of a place, if the record lists names and
/// an English one among them; else `"Unknown"`.
pub open spec fn name_or_unknown(names: Option<Vec<(String, String)>>) -> Seq<char> {
    match names {
        Some(v) => match english_name(v@) {
            Some(n) => n,
            None => "Unknown"@,
        },
        None => "Unknown"@,
    }
}

fn english_or_unknown(names: Option<Vec<(String, String)>>) -> (s: String)
    ensures
        s@ == name_or_unknown(names),
{
    match names {
        None => "Unknown".to_owned(),
        Some(v) => {
            let en = "en".to_owned();
            let n = v.len();
            let mut i: usize = 0;
            assert(v@.skip(0) =~= v@);
            while i < n
                invariant
                    names == Some(v),
                    n == v@.len(),
                    i <= n,
                    en@ == "en"@,
                    english_name(v@) == english_name(v@.skip(i as int)),
                decreases n - i,
            {
                assert(v@.skip(i as int).drop_first() =~= v@.skip(i + 1));
                assert(v@.skip(i as int)[0] == v@[i as int]);
                if v[i].0 == en {
                    let name = v[i].1.clone();
                    assert(english_name(v@.skip(i as int)) == Some(v@[i as int].1@));
                    return name;
                }
                i = i + 1;
            }
            assert(v@.skip(n as int).len() == 0);
            "Unknown".to_owned()
        },
    }
}

/// The English name of a place is the name of the first pair whose code is
/// `"en"`, however many names the list holds; a list without such a pair has no
/// English name.
pub proof fn lemma_english_name_first_en(names: Seq<(String, String)>)
    ensures
        forall|i: int|
            0 <= i < names.len() && names[i].0@ == "en"@ && (forall|j: int|
                0 <= j < i ==> names[j].0@ != "en"@) ==> english_name(names) == Some(
                names[i].1@,
            ),
        (forall|j: int| 0 <= j < names.len() ==> names[j].0@ != "en"@) ==> english_name(names)
            is None,
    decreases names.len(),
{
    if names.len() > 0 {
        let rest = names.drop_first();
        lemma_english_name_first_en(rest);
        assert forall|i: int|
            0 <= i < names.len() && names[i].0@ == "en"@ && (forall|j: int|
                0 <= j < i ==> names[j].0@ != "en"@) implies english_name(names) == Some(
            names[i].1@,
        ) by {
            if i > 0 {
                assert(names[0].0@ != "en"@);
                assert(rest[i - 1] == names[i]);
                assert forall|j: int| 0 <= j < i - 1 implies rest[j].0@ != "en"@ by {
                    assert(rest[j] == names[j + 1]);
                }
            }
        }
        if forall|j: int| 0 <= j < names.len() ==> names[j].0@ != "en"@ {
            assert(names[0].0@ != "en"@);
            assert forall|j: int| 0 <= j < rest.len() implies rest[j].0@ != "en"@ by {
                assert(rest[j] == names[j + 1]);
            }
        }
    }
}

/// The location part that `geo_info` gives for a record's name list is the
/// name of its first `"en"` pair, or `"Unknown"` when it has none.
pub proof fn lemma_name_or_unknown_first_en(names: Vec<(String, String)>)
    ensures
        forall|i: int|
            0 <= i < names@.len() && names@[i].0@ == "en"@ && (forall|j: int|
                0 <= j < i ==> names@[j].0@ != "en"@) ==> name_or_unknown(Some(names))
                == names@[i].1@,
        (forall|j: int| 0 <= j < names@.len() ==> names@[j].0@ != "en"@) ==> name_or_unknown(
            Some(names),
        ) == "Unknown"@,
{
    lemma_english_name_first_en(names@);
}

impl GeoInfo {
    /// The location of an address that the database does not know.
    pub fn unknown() -> (g: GeoInfo)
        ensures
            g.country@ == "Unknown"@,
            g.city@ == "Unknown"@,
    {
        GeoInfo { country: "Unknown".to_owned(), city: "Unknown".to_owned() }
    }
}

/// The location for the outcome of a database lookup: `None` when the database
/// could not be opened, the address not parsed or the lookup failed; else the
/// names (language code, name) of the record's country and city, where it has
/// them. Each part is its English name, or `"Unknown"`.
pub fn geo_info(found: Option<(Option<Vec<(String, String)>>, Option<Vec<(String, String)>>)>) -> (g: GeoInfo)
    ensures
        match found {
            None => g.country@ == "Unknown"@ && g.city@ == "Unknown"@,
            Some((country, city)) => g.country@ == name_or_unknown(country) && g.city@
                == name_or_unknown(city),
        },
{
    match found {
        None => GeoInfo::unknown(),
        Some((country, city)) => GeoInfo {
            country: english_or_unknown(country),
            city: english_or_unknown(city),
        },
    }
}

} // verus!
