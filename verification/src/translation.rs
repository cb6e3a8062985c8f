//! The locale text lookup: a read-only table from (locale, message key) to
//! localized text, with the key itself as the fallback. The table is built
//! once and handed to whoever renders messages; it never affects what a
//! line decodes to.

use vstd::prelude::*;

verus! {

/// A read-only localization table: (locale, key, localized text) triples.
pub struct Translations {
    pub entries: Vec<(String, String, String)>,
}

impl View for Translations {
    type V = Seq<(Seq<char>, Seq<char>, Seq<char>)>;

    open spec fn view(&self) -> Seq<(Seq<char>, Seq<char>, Seq<char>)> {
        self.entries@.map_values(|e: (String, String, String)| (e.0@, e.1@, e.2@))
    }
}

/// The first entry matching the locale and key gives the text; an unknown
/// key falls back to itself.
pub open spec fn spec_lookup(
    t: Seq<(Seq<char>, Seq<char>, Seq<char>)>,
    lang: Seq<char>,
    key: Seq<char>,
) -> Seq<char>
    decreases t.len(),
{
    if t.len() == 0 {
        key
    } else if t[0].0 == lang && t[0].1 == key {
        t[0].2
    } else {
        spec_lookup(t.skip(1), lang, key)
    }
}

/// The built-in table: English and Polish text for every message key.
pub open spec fn spec_translation_table() -> Seq<(Seq<char>, Seq<char>, Seq<char>)> {
    seq![
        ("en"@, "Enter a line to parse (or type 'exit' to quit)"@, "Enter a line to parse (or type 'exit' to quit)"@),
        ("en"@, "Invalid team value"@, "Invalid team value"@),
        ("en"@, "Invalid player's number"@, "Invalid player's number"@),
        ("en"@, "Invalid skill type"@, "Invalid skill type"@),
        ("en"@, "Invalid eval type"@, "Invalid eval type"@),
        ("en"@, "Invalid zone"@, "Invalid zone"@),
        ("en"@, "Invalid subzone"@, "Invalid subzone"@),
        ("en"@, "Not enough characters"@, "Not enough characters"@),
        ("en"@, "Exiting..."@, "Exiting..."@),
        ("en"@, "Parsing Result"@, "Parsing Result"@),
        ("en"@, "Events"@, "Events"@),
        ("en"@, "Comment"@, "Comment"@),
        ("en"@, "Warnings"@, "Warnings"@),
        ("pl"@, "Enter a line to parse (or type 'exit' to quit)"@, "Wprowadź linię do sparsowania (lub wpisz 'exit', aby wyjść)"@),
        ("pl"@, "Invalid team value"@, "Nieprawidłowa wartość drużyny"@),
        ("pl"@, "Invalid player's number"@, "Nieprawidłowy numer zawodnika"@),
        ("pl"@, "Invalid skill type"@, "Niepoprawny rodzaj umiejętności"@),
        ("pl"@, "Invalid eval type"@, "Niepoprawna wartość eval"@),
        ("pl"@, "Invalid zone"@, "Niepoprawna strefa"@),
        ("pl"@, "Invalid subzone"@, "Niepoprawna podstrefa"@),
        ("pl"@, "Not enough characters"@, "Zbyt mało znaków"@),
        ("pl"@, "Exiting..."@, "Zamykanie..."@),
        ("pl"@, "Parsing Result"@, "Wynik Parsowania"@),
        ("pl"@, "Events"@, "Zdarzenia"@),
        ("pl"@, "Comment"@, "Komentarz"@),
        ("pl"@, "Warnings"@, "Ostrzeżenia"@),
    ]
}

/// Adds one (locale, key, text) entry.
fn add_entry(entries: &mut Vec<(String, String, String)>, lang: &str, key: &str, text: &str)
    ensures
        final(entries)@ == old(entries)@.push(final(entries)@.last()),
        final(entries)@.len() == old(entries)@.len() + 1,
        final(entries)@.last().0@ == lang@,
        final(entries)@.last().1@ == key@,
        final(entries)@.last().2@ == text@,
{
    entries.push((String::from_str(lang), String::from_str(key), String::from_str(text)));
    proof {
        assert(entries@ =~= old(entries)@.push(entries@.last()));
    }
}

/// Builds the full localization table.
#[verifier::rlimit(100)]
pub fn init_translations() -> (r: Translations)
    ensures
        r@ == spec_translation_table(),
{
    let mut entries: Vec<(String, String, String)> = Vec::new();
    add_entry(&mut entries, "en", "Enter a line to parse (or type 'exit' to quit)", "Enter a line to parse (or type 'exit' to quit)");
    add_entry(&mut entries, "en", "Invalid team value", "Invalid team value");
    add_entry(&mut entries, "en", "Invalid player's number", "Invalid player's number");
    add_entry(&mut entries, "en", "Invalid skill type", "Invalid skill type");
    add_entry(&mut entries, "en", "Invalid eval type", "Invalid eval type");
    add_entry(&mut entries, "en", "Invalid zone", "Invalid zone");
    add_entry(&mut entries, "en", "Invalid subzone", "Invalid subzone");
    add_entry(&mut entries, "en", "Not enough characters", "Not enough characters");
    add_entry(&mut entries, "en", "Exiting...", "Exiting...");
    add_entry(&mut entries, "en", "Parsing Result", "Parsing Result");
    add_entry(&mut entries, "en", "Events", "Events");
    add_entry(&mut entries, "en", "Comment", "Comment");
    add_entry(&mut entries, "en", "Warnings", "Warnings");
    add_entry(&mut entries, "pl", "Enter a line to parse (or type 'exit' to quit)", "Wprowadź linię do sparsowania (lub wpisz 'exit', aby wyjść)");
    add_entry(&mut entries, "pl", "Invalid team value", "Nieprawidłowa wartość drużyny");
    add_entry(&mut entries, "pl", "Invalid player's number", "Nieprawidłowy numer zawodnika");
    add_entry(&mut entries, "pl", "Invalid skill type", "Niepoprawny rodzaj umiejętności");
    add_entry(&mut entries, "pl", "Invalid eval type", "Niepoprawna wartość eval");
    add_entry(&mut entries, "pl", "Invalid zone", "Niepoprawna strefa");
    add_entry(&mut entries, "pl", "Invalid subzone", "Niepoprawna podstrefa");
    add_entry(&mut entries, "pl", "Not enough characters", "Zbyt mało znaków");
    add_entry(&mut entries, "pl", "Exiting...", "Zamykanie...");
    add_entry(&mut entries, "pl", "Parsing Result", "Wynik Parsowania");
    add_entry(&mut entries, "pl", "Events", "Zdarzenia");
    add_entry(&mut entries, "pl", "Comment", "Komentarz");
    add_entry(&mut entries, "pl", "Warnings", "Ostrzeżenia");
    let r: Translations = Translations { entries };
    proof {
        assert(r@ =~= spec_translation_table());
    }
    r
}

impl Translations {
    /// Looks up the text for a message key in a locale; an unknown key is
    /// returned unchanged.
    pub fn lookup(&self, lang: &str, key: &str) -> (r: String)
        ensures
            r@ == spec_lookup(self@, lang@, key@),
    {
        let lang_s: String = String::from_str(lang);
        let key_s: String = String::from_str(key);
        let n: usize = self.entries.len();
        let mut i: usize = 0;
        proof {
            assert(self@.skip(0) =~= self@);
        }
        while i < n
            invariant
                0 <= i <= n,
                n == self.entries.len(),
                lang_s@ == lang@,
                key_s@ == key@,
                spec_lookup(self@, lang@, key@) == spec_lookup(self@.skip(i as int), lang@, key@),
            decreases n - i,
        {
            proof {
                assert(self@.skip(i as int)[0] == self@[i as int]);
            }
            if self.entries[i].0 == lang_s && self.entries[i].1 == key_s {
                return self.entries[i].2.clone();
            }
            proof {
                assert(self@.skip(i as int).skip(1) =~= self@.skip(i as int + 1));
            }
            i = i + 1;
        }
        proof {
            assert(self@.skip(n as int) =~= Seq::<(Seq<char>, Seq<char>, Seq<char>)>::empty());
        }
        key_s
    }
}

} // verus!
