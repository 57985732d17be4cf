use vstd::prelude::*;

verus! {

/// Relies on str's PartialEq: two string slices are equal exactly when
/// their character sequences are equal.
pub assume_specification[ <str as PartialEq>::eq ](s: &str, other: &str) -> (r: bool)
    ensures
        r == (s@ == other@),
;

/// One UI language: its short code, its display name, and its table of
/// text keys to localized texts. The loader fills the table; the game
/// only looks text up in it.
pub struct Locale {
    pub code: String,
    pub language: String,
    pub translations: Vec<(String, String)>,
}

/// The text stored for a key: the most recently added pair wins, as an
/// insert into a map would.
pub open spec fn spec_lookup(ts: Seq<(String, String)>, key: Seq<char>) -> Option<Seq<char>>
    decreases ts.len(),
{
    if ts.len() == 0 {
        None
    } else if ts.last().0@ == key {
        Some(ts.last().1@)
    } else {
        spec_lookup(ts.drop_last(), key)
    }
}

impl Locale {
    pub fn new(code: String, language: String, translations: Vec<(String, String)>) -> (r: Locale)
        ensures
            r.code == code,
            r.language == language,
            r.translations == translations,
    {
        Locale { code, language, translations }
    }

    /// The localized text for a key, if the locale has one.
    pub fn get(&self, key: &str) -> (r: Option<&String>)
        ensures
            match r {
                Some(t) => spec_lookup(self.translations@, key@) == Some(t@),
                None => spec_lookup(self.translations@, key@) is None,
            },
    {
        let mut i: usize = self.translations.len();
        proof {
            assert(self.translations@.take(i as int) =~= self.translations@);
        }
        while i > 0
            invariant
                0 <= i <= self.translations@.len(),
                spec_lookup(self.translations@, key@) == spec_lookup(
                    self.translations@.take(i as int),
                    key@,
                ),
            decreases i,
        {
            i = i - 1;
            proof {
                let t = self.translations@.take(i as int + 1);
                assert(t.last() == self.translations@[i as int]);
                assert(t.drop_last() =~= self.translations@.take(i as int));
            }
            if self.translations[i].0.as_str().eq(key) {
                return Some(&self.translations[i].1);
            }
        }
        None
    }

    pub fn get_code(&self) -> (r: &String)
        ensures
            r@ == self.code@,
    {
        &self.code
    }

    pub fn get_language(&self) -> (r: &String)
        ensures
            r@ == self.language@,
    {
        &self.language
    }
}

} // verus!
