//! The configuration document: a section `Config` with the keys `time`, the
//! trigger set in its text form, and `sound`, the path of the alert sound.
//! A key that is absent or commented out counts as empty.

use vstd::prelude::*;
use vstd::string::StrSliceExecFns;

verus! {

#[verifier::external_type_specification]
#[verifier::external_body]
pub struct ExIniParseError(ini::ParseError);

/// The configuration written on first start: an alarm at half past every
/// hour and one on the hour, and no sound.
pub const DEFAULT_CONFIG: &'static str = "[Config]\ntime=:30:,:00:\n#sound=sound.ogg";

/// One `key = value` line of a document, with the section it stands in.
/// Lines before the first section header have no section.
#[derive(Clone, Debug, PartialEq, Eq)]
pub struct ConfigEntry {
    pub section: Option<String>,
    pub key: String,
    pub value: String,
}

/// A `ConfigEntry` as mathematical text.
pub struct EntryView {
    pub section: Option<Seq<char>>,
    pub key: Seq<char>,
    pub value: Seq<char>,
}

impl View for ConfigEntry {
    type V = EntryView;

    open spec fn view(&self) -> EntryView {
        EntryView {
            section: match self.section {
                Some(name) => Some(name@),
                None => None,
            },
            key: self.key@,
            value: self.value@,
        }
    }
}

/// The entries of a list, each as mathematical text.
pub open spec fn entries_view(entries: Seq<ConfigEntry>) -> Seq<EntryView> {
    Seq::new(entries.len(), |i: int| entries[i]@)
}

/// The byte-order mark that some editors put in front of a text.
pub const BYTE_ORDER_MARK: char = '\u{feff}';

/// `text` without a leading byte-order mark.
pub open spec fn without_mark(text: Seq<char>) -> Seq<char> {
    if text.len() > 0 && text[0] == BYTE_ORDER_MARK {
        text.skip(1)
    } else {
        text
    }
}

/// Drops a leading byte-order mark, if there is one.
pub fn strip_mark(text: &str) -> (rest: &str)
    ensures
        rest@ == without_mark(text@),
{
    let n = text.unicode_len();
    if n > 0 && text.get_char(0) == BYTE_ORDER_MARK {
        let rest = text.substring_char(1, n);
        assert(rest@ =~= text@.skip(1));
        rest
    } else {
        text
    }
}

/// What the `ini` crate makes of a text: the `key = value` lines in the
/// order written, each with its section, or `None` where the crate refuses
/// the text.
pub uninterp spec fn ini_document(text: Seq<char>) -> Option<Seq<EntryView>>;

/// Calls `ini::Ini::load_from_str`, and walks the document with `Ini::iter`
/// and `Properties::iter`.
///
/// Believed, not proved: the outcome depends on the text alone. The parser
/// reads the characters in order with fixed options and keeps sections and
/// properties in lists that it walks in the order of insertion.
#[verifier::external_body]
fn read_document(text: &str) -> (r: Result<Vec<ConfigEntry>, ini::ParseError>)
    ensures
        match r {
            Ok(entries) => ini_document(text@) == Some(entries_view(entries@)),
            Err(_) => ini_document(text@) is None,
        },
{
    let document = ini::Ini::load_from_str(text)?;
    let mut entries = Vec::new();
    for (section, properties) in document.iter() {
        for (key, value) in properties.iter() {
            let section = section.map(String::from);
            entries.push(ConfigEntry { section, key: key.to_string(), value: value.to_string() });
        }
    }
    Ok(entries)
}

/// Name of the section that holds the settings.
pub const SECTION: &'static str = "Config";

/// Key of the trigger set.
pub const TIME_KEY: &'static str = "time";

/// Key of the sound file's path.
pub const SOUND_KEY: &'static str = "sound";

/// The settings as written: the trigger set in its text form, and the path
/// of the sound file. Either is empty where the document does not set it.
#[derive(Clone, Debug, PartialEq, Eq)]
pub struct Settings {
    pub time: String,
    pub sound: String,
}

/// Why a text is no configuration.
#[derive(Clone, Copy, Debug, PartialEq, Eq)]
pub enum ConfigError {
    /// The text is no document of sections and `key = value` lines.
    Syntax,
}

/// The entry sets `key` in `section`.
pub open spec fn sets(entry: EntryView, section: Seq<char>, key: Seq<char>) -> bool {
    entry.section == Some(section) && entry.key == key
}

/// The value that the last entry for `key` in `section` gives it, or the
/// empty text where no entry sets it.
pub open spec fn last_value(entries: Seq<EntryView>, section: Seq<char>, key: Seq<char>) -> Seq<char>
    decreases entries.len(),
{
    if entries.len() == 0 {
        Seq::empty()
    } else if sets(entries.last(), section, key) {
        entries.last().value
    } else {
        last_value(entries.drop_last(), section, key)
    }
}

/// Picks the settings out of a document's entries. Where a key is set more
/// than once, the last entry counts.
pub fn settings_from_entries(entries: &Vec<ConfigEntry>) -> (settings: Settings)
    ensures
        settings.time@ == last_value(entries_view(entries@), SECTION@, TIME_KEY@),
        settings.sound@ == last_value(entries_view(entries@), SECTION@, SOUND_KEY@),
{
    let section = SECTION.to_owned();
    let time_key = TIME_KEY.to_owned();
    let sound_key = SOUND_KEY.to_owned();
    let mut time = String::new();
    let mut sound = String::new();
    let ghost all = entries_view(entries@);
    proof {
        reveal_strlit("time");
        reveal_strlit("sound");
        assert(TIME_KEY@.len() != SOUND_KEY@.len());
    }
    let mut i: usize = 0;
    while i < entries.len()
        invariant
            i <= entries@.len(),
            all == entries_view(entries@),
            section@ == SECTION@,
            time_key@ == TIME_KEY@,
            sound_key@ == SOUND_KEY@,
            TIME_KEY@ != SOUND_KEY@,
            time@ == last_value(all.take(i as int), SECTION@, TIME_KEY@),
            sound@ == last_value(all.take(i as int), SECTION@, SOUND_KEY@),
        decreases entries@.len() - i,
    {
        let entry = &entries[i];
        proof {
            let upto = all.take(i + 1);
            assert(upto.last() == entry@);
            assert(upto.drop_last() =~= all.take(i as int));
        }
        let in_section = match &entry.section {
            Some(name) => *name == section,
            None => false,
        };
        if in_section {
            if entry.key == time_key {
                time = entry.value.clone();
            } else if entry.key == sound_key {
                sound = entry.value.clone();
            }
        }
        i += 1;
    }
    assert(all.take(i as int) =~= all);
    Settings { time, sound }
}

/// What reading `text` as a configuration yields.
pub open spec fn is_settings_of(text: Seq<char>, r: Result<Settings, ConfigError>) -> bool {
    match ini_document(without_mark(text)) {
        None => r == Err::<Settings, ConfigError>(ConfigError::Syntax),
        Some(entries) => {
            &&& r matches Ok(settings)
            &&& settings.time@ == last_value(entries, SECTION@, TIME_KEY@)
            &&& settings.sound@ == last_value(entries, SECTION@, SOUND_KEY@)
        },
    }
}

/// Reads the settings from the text of a configuration file. A leading
/// byte-order mark is skipped.
pub fn load_settings(text: &str) -> (r: Result<Settings, ConfigError>)
    ensures
        is_settings_of(text@, r),
{
    match read_document(strip_mark(text)) {
        Ok(entries) => Ok(settings_from_entries(&entries)),
        Err(_) => Err(ConfigError::Syntax),
    }
}

} // verus!
