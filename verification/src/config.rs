//! Configuration sections: a string-keyed map of settings, loadable from
//! a properties text (key=value lines) and writable back to one.
//!
//! Structured formats are parsed by an outside serializer behind trusted
//! wrappers; everything the parsed entries feed is verified.

use vstd::prelude::*;

verus! {

/// A configuration value as the sections hold it: the forms the
/// properties format can express, and an opaque rest.
#[derive(Debug, PartialEq)]
pub enum ConfigValue {
    Bool(bool),
    Text(String),
    Other,
}

/// Ghost image of a configuration value.
pub enum ConfigValueView {
    Bool(bool),
    Text(Seq<char>),
    Other,
}

impl View for ConfigValue {
    type V = ConfigValueView;

    open spec fn view(&self) -> ConfigValueView {
        match self {
            ConfigValue::Bool(b) => ConfigValueView::Bool(*b),
            ConfigValue::Text(s) => ConfigValueView::Text(s@),
            ConfigValue::Other => ConfigValueView::Other,
        }
    }
}

/// The map a sequence of entries denotes: later entries win.
pub open spec fn map_of(entries: Seq<(String, ConfigValue)>) -> Map<Seq<char>, ConfigValueView>
    decreases entries.len(),
{
    if entries.len() == 0 {
        Map::empty()
    } else {
        map_of(entries.drop_last()).insert(entries.last().0@, entries.last().1@)
    }
}

/// A key is in the denoted map exactly when some entry carries it.
pub proof fn lemma_map_of_contains(entries: Seq<(String, ConfigValue)>, key: Seq<char>)
    ensures
        map_of(entries).contains_key(key) <==> exists|i: int|
            0 <= i < entries.len() && (#[trigger] entries[i]).0@ == key,
    decreases entries.len(),
{
    if entries.len() > 0 {
        lemma_map_of_contains(entries.drop_last(), key);
        if entries.last().0@ == key {
            assert(entries[entries.len() - 1].0@ == key);
        } else if map_of(entries).contains_key(key) {
            let i = choose|i: int|
                0 <= i < entries.drop_last().len() && (#[trigger] entries.drop_last()[i]).0@ == key;
            assert(entries[i].0@ == key);
        } else {
            if exists|i: int| 0 <= i < entries.len() && (#[trigger] entries[i]).0@ == key {
                let i = choose|i: int|
                    0 <= i < entries.len() && (#[trigger] entries[i]).0@ == key;
                assert(entries.drop_last()[i].0@ == key);
            }
        }
    }
}

/// With unique keys, the entry that carries a key gives its value in the
/// denoted map.
pub proof fn lemma_map_of_at(entries: Seq<(String, ConfigValue)>, i: int)
    requires
        0 <= i < entries.len(),
        forall|a: int, b: int|
            0 <= a < b < entries.len() ==> (#[trigger] entries[a]).0@ != (
            #[trigger] entries[b]).0@,
    ensures
        map_of(entries).contains_key(entries[i].0@),
        map_of(entries)[entries[i].0@] == entries[i].1@,
    decreases entries.len(),
{
    if i == entries.len() - 1 {
    } else {
        lemma_map_of_at(entries.drop_last(), i);
        assert(entries.drop_last()[i] == entries[i]);
        assert(entries[i].0@ != entries[entries.len() - 1].0@);
    }
}

/// With unique keys, replacing the value at one entry denotes the same
/// map as inserting over the old key.
pub proof fn lemma_map_of_update(
    entries: Seq<(String, ConfigValue)>,
    i: int,
    k: String,
    v: ConfigValue,
)
    requires
        0 <= i < entries.len(),
        k@ == entries[i].0@,
        forall|a: int, b: int|
            0 <= a < b < entries.len() ==> (#[trigger] entries[a]).0@ != (
            #[trigger] entries[b]).0@,
    ensures
        map_of(entries.update(i, (k, v))) == map_of(entries).insert(entries[i].0@, v@),
    decreases entries.len(),
{
    let updated = entries.update(i, (k, v));
    if i == entries.len() - 1 {
        assert(updated.drop_last() =~= entries.drop_last());
        assert(map_of(updated) =~= map_of(entries).insert(entries[i].0@, v@));
    } else {
        lemma_map_of_update(entries.drop_last(), i, k, v);
        assert(updated.drop_last() =~= entries.drop_last().update(i, (k, v)));
        assert(entries.drop_last()[i] == entries[i]);
        assert(updated.last() == entries.last());
        assert(entries[i].0@ != entries[entries.len() - 1].0@);
        assert(map_of(updated) =~= map_of(entries).insert(entries[i].0@, v@));
    }
}

/// One named group of settings. Keys are unique; inserting over an
/// existing key replaces its value.
pub struct ConfigSection {
    entries: Vec<(String, ConfigValue)>,
}

impl View for ConfigSection {
    type V = Map<Seq<char>, ConfigValueView>;

    closed spec fn view(&self) -> Map<Seq<char>, ConfigValueView> {
        map_of(self.entries@)
    }
}

impl ConfigSection {
    /// Keys never repeat among the entries.
    pub closed spec fn wf(&self) -> bool {
        forall|a: int, b: int|
            0 <= a < b < self.entries@.len() ==> (#[trigger] self.entries@[a]).0@ != (
            #[trigger] self.entries@[b]).0@
    }

    /// The entries in insertion order, oldest first.
    pub closed spec fn spec_entries(&self) -> Seq<(String, ConfigValue)> {
        self.entries@
    }

    /// An empty section.
    pub fn new() -> (r: Self)
        ensures
            r.wf(),
            r@ == Map::<Seq<char>, ConfigValueView>::empty(),
            r.spec_entries().len() == 0,
    {
        ConfigSection { entries: Vec::new() }
    }

    /// Set a key to a value, replacing any value it had.
    pub fn insert(&mut self, key: String, value: ConfigValue)
        requires
            old(self).wf(),
        ensures
            final(self).wf(),
            final(self)@ == old(self)@.insert(key@, value@),
    {
        let mut i: usize = 0;
        while i < self.entries.len()
            invariant
                i <= self.entries@.len(),
                forall|j: int| 0 <= j < i ==> (#[trigger] self.entries@[j]).0@ != key@,
                self.entries@ == old(self).entries@,
                old(self).wf(),
            decreases self.entries@.len() - i,
        {
            if self.entries[i].0 == key {
                proof {
                    lemma_map_of_update(self.entries@, i as int, key, value);
                    assert(self.entries@[i as int].0@ == key@);
                    assert(old(self)@.insert(self.entries@[i as int].0@, value@) =~= old(
                        self,
                    )@.insert(key@, value@));
                }
                let ghost pre = self.entries@;
                self.entries.set(i, (key, value));
                proof {
                    assert forall|a: int, b: int|
                        0 <= a < b < self.entries@.len() implies (#[trigger] self.entries@[a]).0@
                        != (#[trigger] self.entries@[b]).0@ by {
                        assert(pre[a].0@ != pre[b].0@);
                        assert(self.entries@[a].0@ == pre[a].0@);
                        assert(self.entries@[b].0@ == pre[b].0@);
                    }
                }
                return ;
            }
            i = i + 1;
        }
        proof {
            lemma_map_of_contains(self.entries@, key@);
        }
        self.entries.push((key, value));
        proof {
            assert(self.entries@.drop_last() =~= old(self).entries@);
        }
    }

    /// Look a key up.
    pub fn get(&self, key: &String) -> (r: Option<&ConfigValue>)
        requires
            self.wf(),
        ensures
            match r {
                Some(v) => self@.contains_key(key@) && v@ == self@[key@],
                None => !self@.contains_key(key@),
            },
    {
        let mut i: usize = 0;
        while i < self.entries.len()
            invariant
                i <= self.entries@.len(),
                forall|j: int| 0 <= j < i ==> (#[trigger] self.entries@[j]).0@ != key@,
                self.wf(),
            decreases self.entries@.len() - i,
        {
            if self.entries[i].0 == *key {
                proof {
                    lemma_map_of_at(self.entries@, i as int);
                }
                return Some(&self.entries[i].1);
            }
            i = i + 1;
        }
        proof {
            lemma_map_of_contains(self.entries@, key@);
        }
        None
    }

    /// All entries, in insertion order.
    pub fn get_all(&self) -> (r: &Vec<(String, ConfigValue)>)
        ensures
            r@ == self.spec_entries(),
    {
        &self.entries
    }

    /// The keys, in insertion order; each appears once.
    pub fn keys(&self) -> (r: Vec<String>)
        requires
            self.wf(),
        ensures
            r@.len() == self.spec_entries().len(),
            forall|i: int|
                0 <= i < r@.len() ==> (#[trigger] r@[i])@ == self.spec_entries()[i].0@,
    {
        let mut r: Vec<String> = Vec::new();
        let mut i: usize = 0;
        while i < self.entries.len()
            invariant
                i <= self.entries@.len(),
                r@.len() == i,
                forall|j: int| 0 <= j < i ==> (#[trigger] r@[j])@ == self.entries@[j].0@,
            decreases self.entries@.len() - i,
        {
            r.push(self.entries[i].0.clone());
            i = i + 1;
        }
        r
    }
}

/// The formats a configuration file can take; `Detect` falls back to
/// YAML.
#[derive(Clone, Copy, Debug, PartialEq, Eq, Structural)]
pub enum ConfigType {
    Properties,
    Json,
    Yaml,
    Enum,
    Detect,
}

/// Why loading or saving a configuration failed.
#[derive(Clone, Copy, Debug, PartialEq, Eq, Structural)]
pub enum ConfigError {
    /// The configured format supports neither loading nor saving.
    UnsupportedType,
    /// The text is not valid in the configured format.
    ParseFailed,
}

/// Index of the first `=` in the line at or after `from`, or the line's
/// length when there is none.
pub open spec fn eq_pos(line: Seq<char>, from: int) -> int
    decreases line.len() - from,
{
    if from < 0 || from >= line.len() {
        line.len() as int
    } else if line[from] == '=' {
        from
    } else {
        eq_pos(line, from + 1)
    }
}

/// What one properties line contributes: `key=value` sets the key to the
/// text after the first `=`; a line without `=` contributes nothing.
pub open spec fn apply_line(
    m: Map<Seq<char>, ConfigValueView>,
    line: Seq<char>,
) -> Map<Seq<char>, ConfigValueView> {
    let q = eq_pos(line, 0);
    if q < line.len() {
        m.insert(line.take(q), ConfigValueView::Text(line.skip(q + 1)))
    } else {
        m
    }
}

/// A line's content with a carriage return before the break stripped.
pub open spec fn strip_cr(line: Seq<char>) -> Seq<char> {
    if line.len() > 0 && line.last() == '\r' {
        line.drop_last()
    } else {
        line
    }
}

/// The section a properties text denotes, scanned one character at a
/// time: `cur` is the line gathered so far, `m` the entries so far. A
/// break ends a line (dropping a `\r` before it); text after the last
/// break is a line of its own.
pub open spec fn spec_parse_props(
    s: Seq<char>,
    from: int,
    cur: Seq<char>,
    m: Map<Seq<char>, ConfigValueView>,
) -> Map<Seq<char>, ConfigValueView>
    decreases s.len() - from,
{
    if from < 0 || from >= s.len() {
        if cur.len() > 0 {
            apply_line(m, cur)
        } else {
            m
        }
    } else if s[from] == '\n' {
        spec_parse_props(s, from + 1, Seq::empty(), apply_line(m, strip_cr(cur)))
    } else {
        spec_parse_props(s, from + 1, cur.push(s[from]), m)
    }
}

/// The text one value prints as in a properties file.
pub open spec fn value_text(v: ConfigValueView) -> Seq<char> {
    match v {
        ConfigValueView::Bool(b) => if b {
            "on"@
        } else {
            "off"@
        },
        ConfigValueView::Text(s) => s,
        ConfigValueView::Other => "unknown"@,
    }
}

/// The properties text a sequence of entries prints as: one
/// `key=value` line per entry, in order.
pub open spec fn props_text(entries: Seq<(String, ConfigValue)>) -> Seq<char>
    decreases entries.len(),
{
    if entries.len() == 0 {
        Seq::empty()
    } else {
        props_text(entries.drop_last()) + entries.last().0@ + "="@ + value_text(
            entries.last().1@,
        ) + "\n"@
    }
}

/// A set of settings bound to an optional file in one of the supported
/// formats. Reading and writing the file is the caller's business; this
/// type parses and prints the content.
pub struct Config {
    pub config: ConfigSection,
    pub file: Option<String>,
    pub file_type: ConfigType,
}

impl Config {
    pub open spec fn wf(&self) -> bool {
        self.config.wf()
    }

    /// An empty configuration for the given file and format; asking for
    /// format detection falls back to YAML.
    pub fn new(file: Option<String>, file_type: ConfigType) -> (r: Config)
        ensures
            r.wf(),
            r.config@ == Map::<Seq<char>, ConfigValueView>::empty(),
            r.config.spec_entries().len() == 0,
            r.file == file,
            r.file_type == (if file_type == ConfigType::Detect {
                ConfigType::Yaml
            } else {
                file_type
            }),
    {
        Config {
            config: ConfigSection::new(),
            file,
            file_type: if file_type == ConfigType::Detect {
                ConfigType::Yaml
            } else {
                file_type
            },
        }
    }

    /// Set a key, replacing any value it had.
    pub fn set(&mut self, key: String, value: ConfigValue)
        requires
            old(self).wf(),
        ensures
            final(self).wf(),
            final(self).config@ == old(self).config@.insert(key@, value@),
            final(self).file == old(self).file,
            final(self).file_type == old(self).file_type,
    {
        self.config.insert(key, value);
    }

    /// Look a key up.
    pub fn get(&self, key: &String) -> (r: Option<&ConfigValue>)
        requires
            self.wf(),
        ensures
            match r {
                Some(v) => self.config@.contains_key(key@) && v@ == self.config@[key@],
                None => !self.config@.contains_key(key@),
            },
    {
        self.config.get(key)
    }

    /// All keys, in insertion order.
    pub fn get_keys(&self) -> (r: Vec<String>)
        requires
            self.wf(),
        ensures
            r@.len() == self.config.spec_entries().len(),
            forall|i: int|
                0 <= i < r@.len() ==> (#[trigger] r@[i])@ == self.config.spec_entries()[i].0@,
    {
        self.config.keys()
    }

    /// Parse a properties text (`key=value` lines) into the section.
    pub fn parse_properties(&mut self, content: &str)
        requires
            old(self).wf(),
        ensures
            final(self).wf(),
            final(self).config@ == spec_parse_props(
                content@,
                0,
                Seq::empty(),
                old(self).config@,
            ),
            final(self).file == old(self).file,
            final(self).file_type == old(self).file_type,
    {
        let n = content.unicode_len();
        proof {
            assert(content@.subrange(0, 0) =~= Seq::<char>::empty());
        }
        let mut i: usize = 0;
        let mut ls: usize = 0;
        while i < n
            invariant
                ls <= i <= n,
                n == content@.len(),
                self.wf(),
                spec_parse_props(
                    content@,
                    i as int,
                    content@.subrange(ls as int, i as int),
                    self.config@,
                ) == spec_parse_props(content@, 0, Seq::empty(), old(self).config@),
                self.file == old(self).file,
                self.file_type == old(self).file_type,
            decreases n - i,
        {
            let c = content.get_char(i);
            if c == '\n' {
                let ghost cur = content@.subrange(ls as int, i as int);
                let mut le: usize = i;
                if le > ls && content.get_char(le - 1) == '\r' {
                    le = le - 1;
                }
                proof {
                    assert(strip_cr(cur) =~= content@.subrange(ls as int, le as int));
                }
                self.insert_line(content, ls, le);
                ls = i + 1;
                proof {
                    assert(content@.subrange(ls as int, ls as int) =~= Seq::<char>::empty());
                }
            } else {
                proof {
                    assert(content@.subrange(ls as int, i + 1) =~= content@.subrange(
                        ls as int,
                        i as int,
                    ).push(content@[i as int]));
                }
            }
            i = i + 1;
        }
        if ls < n {
            self.insert_line(content, ls, n);
        }
    }

    /// Apply one `key=value` line: the part before the first `=` names
    /// the key, the part after it is the value; a line without `=` is
    /// passed over.
    fn insert_line(&mut self, content: &str, ls: usize, le: usize)
        requires
            old(self).wf(),
            ls <= le <= content@.len(),
        ensures
            final(self).wf(),
            final(self).config@ == apply_line(
                old(self).config@,
                content@.subrange(ls as int, le as int),
            ),
            final(self).file == old(self).file,
            final(self).file_type == old(self).file_type,
    {
        let ghost line = content@.subrange(ls as int, le as int);
        let mut j: usize = ls;
        while j < le
            invariant
                ls <= j <= le <= content@.len(),
                line == content@.subrange(ls as int, le as int),
                eq_pos(line, 0) == eq_pos(line, j - ls),
                forall|k: int| ls <= k < j ==> content@[k] != '=',
                *self == *old(self),
                old(self).wf(),
            decreases le - j,
        {
            if content.get_char(j) == '=' {
                proof {
                    assert(line[j - ls] == '=');
                    assert(eq_pos(line, j - ls) == j - ls);
                }
                let key = content.substring_char(ls, j).to_owned();
                let value = content.substring_char(j + 1, le).to_owned();
                proof {
                    assert(line.take(j - ls) =~= content@.subrange(ls as int, j as int));
                    assert(line.skip(j - ls + 1) =~= content@.subrange(j + 1, le as int));
                }
                self.config.insert(key, ConfigValue::Text(value));
                return ;
            }
            proof {
                assert(line[j - ls] != '=');
            }
            j = j + 1;
        }
        proof {
            assert(eq_pos(line, le - ls) == line.len());
        }
    }

    /// Replace the whole section with the given entries, applied in
    /// order: later entries win, as in the map they denote.
    pub fn replace_with_entries(&mut self, entries: Vec<(String, ConfigValue)>)
        ensures
            final(self).wf(),
            final(self).config@ == map_of(entries@),
            final(self).file == old(self).file,
            final(self).file_type == old(self).file_type,
    {
        let ghost orig = entries@;
        self.config = ConfigSection::new();
        let mut rest = entries;
        let ghost mut i: int = 0;
        proof {
            assert(map_of(orig.take(0)) =~= Map::<Seq<char>, ConfigValueView>::empty());
            assert(orig.skip(0) =~= orig);
        }
        while rest.len() > 0
            invariant
                0 <= i <= orig.len(),
                rest@ == orig.skip(i),
                self.wf(),
                self.config@ == map_of(orig.take(i)),
                self.file == old(self).file,
                self.file_type == old(self).file_type,
            decreases rest@.len(),
        {
            let (k, v) = rest.remove(0);
            proof {
                assert(orig.skip(i)[0] == orig[i]);
                assert(orig.take(i + 1).drop_last() =~= orig.take(i));
                assert(orig.take(i + 1).last() == orig[i]);
            }
            self.config.insert(k, v);
            proof {
                assert(rest@ =~= orig.skip(i + 1));
                i = i + 1;
            }
        }
        proof {
            assert(orig.take(orig.len() as int) =~= orig);
        }
    }

    /// Load the given text in the configured format. A properties text
    /// always loads; a JSON or YAML text loads exactly when it denotes a
    /// string-keyed document, and the section becomes that document's
    /// map; the remaining formats support no loading at all.
    pub fn load_from_str(&mut self, content: &str) -> (r: Result<(), ConfigError>)
        requires
            old(self).wf(),
        ensures
            final(self).wf(),
            final(self).file == old(self).file,
            final(self).file_type == old(self).file_type,
            match r {
                Ok(_) => true,
                Err(e) => *final(self) == *old(self) && (e == ConfigError::UnsupportedType <==> !(
                old(self).file_type == ConfigType::Properties || old(self).file_type
                    == ConfigType::Json || old(self).file_type == ConfigType::Yaml)),
            },
            old(self).file_type == ConfigType::Properties ==> r is Ok && final(self).config@
                == spec_parse_props(content@, 0, Seq::empty(), old(self).config@),
            old(self).file_type == ConfigType::Json ==> match json_config_map(content@) {
                Some(m) => r is Ok && final(self).config@ == m,
                None => r == Err::<(), ConfigError>(ConfigError::ParseFailed),
            },
            old(self).file_type == ConfigType::Yaml ==> match yaml_config_map(content@) {
                Some(m) => r is Ok && final(self).config@ == m,
                None => r == Err::<(), ConfigError>(ConfigError::ParseFailed),
            },
            !(old(self).file_type == ConfigType::Properties || old(self).file_type
                == ConfigType::Json || old(self).file_type == ConfigType::Yaml) ==> r == Err::<
                (),
                ConfigError,
            >(ConfigError::UnsupportedType),
    {
        if self.file_type == ConfigType::Properties {
            self.parse_properties(content);
            Ok(())
        } else if self.file_type == ConfigType::Json {
            match parse_json_entries(content) {
                Some(entries) => {
                    self.replace_with_entries(entries);
                    Ok(())
                },
                None => Err(ConfigError::ParseFailed),
            }
        } else if self.file_type == ConfigType::Yaml {
            match parse_yaml_entries(content) {
                Some(entries) => {
                    self.replace_with_entries(entries);
                    Ok(())
                },
                None => Err(ConfigError::ParseFailed),
            }
        } else {
            Err(ConfigError::UnsupportedType)
        }
    }

    /// Print the section in the configured format. The properties form is
    /// exactly [`props_text`]; the structured forms come from the outside
    /// serializer, which always accepts what a section can hold; the
    /// remaining formats support no saving.
    pub fn save_content(&self) -> (r: Result<String, ConfigError>)
        ensures
            self.file_type == ConfigType::Properties ==> r is Ok && (r matches Ok(s) && s@
                == props_text(self.config.spec_entries())),
            self.file_type == ConfigType::Json || self.file_type == ConfigType::Yaml ==> r is Ok,
            !(self.file_type == ConfigType::Properties || self.file_type == ConfigType::Json
                || self.file_type == ConfigType::Yaml) ==> r == Err::<String, ConfigError>(
                ConfigError::UnsupportedType,
            ),
    {
        if self.file_type == ConfigType::Properties {
            Ok(self.write_properties())
        } else if self.file_type == ConfigType::Json {
            match json_of_entries(self.config.get_all()) {
                Some(s) => Ok(s),
                None => Err(ConfigError::ParseFailed),
            }
        } else if self.file_type == ConfigType::Yaml {
            match yaml_of_entries(self.config.get_all()) {
                Some(s) => Ok(s),
                None => Err(ConfigError::ParseFailed),
            }
        } else {
            Err(ConfigError::UnsupportedType)
        }
    }

    /// Print the section as a properties text: one `key=value` line per
    /// entry, in order, with booleans as `on`/`off` and anything the
    /// format cannot express as `unknown`.
    pub fn write_properties(&self) -> (r: String)
        ensures
            r@ == props_text(self.config.spec_entries()),
    {
        let entries = self.config.get_all();
        let mut out = String::new();
        let mut i: usize = 0;
        while i < entries.len()
            invariant
                i <= entries@.len(),
                out@ == props_text(entries@.take(i as int)),
            decreases entries@.len() - i,
        {
            proof {
                assert(entries@.take(i + 1).drop_last() =~= entries@.take(i as int));
            }
            out.append(entries[i].0.as_str());
            out.append("=");
            match &entries[i].1 {
                ConfigValue::Bool(b) => {
                    if *b {
                        out.append("on");
                    } else {
                        out.append("off");
                    }
                },
                ConfigValue::Text(s) => {
                    out.append(s.as_str());
                },
                ConfigValue::Other => {
                    out.append("unknown");
                },
            }
            out.append("\n");
            i = i + 1;
        }
        proof {
            assert(entries@.take(entries@.len() as int) =~= entries@);
        }
        out
    }
}

/// The string-keyed document a JSON text denotes, read as configuration
/// values — booleans and strings kept, everything else folded to
/// `Other` — or nothing when the text is not such a document. A function
/// of the text alone.
pub uninterp spec fn json_config_map(text: Seq<char>) -> Option<Map<Seq<char>, ConfigValueView>>;

/// The string-keyed document a YAML text denotes, read the same way.
pub uninterp spec fn yaml_config_map(text: Seq<char>) -> Option<Map<Seq<char>, ConfigValueView>>;

/// Relies on serde_json::from_str: parses a JSON object into entries,
/// keeping booleans and strings and folding everything else to `Other`.
/// Parsing is deterministic in the text, but the entries' order follows
/// the map the parser fills, so only the map they denote is promised.
#[verifier::external_body]
fn parse_json_entries(content: &str) -> (r: Option<Vec<(String, ConfigValue)>>)
    ensures
        match r {
            Some(entries) => json_config_map(content@) == Some(map_of(entries@)),
            None => json_config_map(content@) is None,
        },
{
    let parsed: Result<std::collections::HashMap<String, serde_yaml::Value>, _> =
        serde_json::from_str(content);
    parsed.ok().map(|m| m.into_iter().map(|(k, v)| (k, match v {
        serde_yaml::Value::Bool(b) => ConfigValue::Bool(b),
        serde_yaml::Value::String(s) => ConfigValue::Text(s),
        _ => ConfigValue::Other,
    })).collect())
}

/// Relies on serde_yaml::from_str: parses a YAML mapping into entries,
/// keeping booleans and strings and folding everything else to `Other`.
/// Parsing is deterministic in the text, but the entries' order follows
/// the map the parser fills, so only the map they denote is promised.
#[verifier::external_body]
fn parse_yaml_entries(content: &str) -> (r: Option<Vec<(String, ConfigValue)>>)
    ensures
        match r {
            Some(entries) => yaml_config_map(content@) == Some(map_of(entries@)),
            None => yaml_config_map(content@) is None,
        },
{
    let parsed: Result<std::collections::HashMap<String, serde_yaml::Value>, _> =
        serde_yaml::from_str(content);
    parsed.ok().map(|m| m.into_iter().map(|(k, v)| (k, match v {
        serde_yaml::Value::Bool(b) => ConfigValue::Bool(b),
        serde_yaml::Value::String(s) => ConfigValue::Text(s),
        _ => ConfigValue::Other,
    })).collect())
}

/// Relies on serde_json::to_string_pretty: prints the entries as a JSON
/// object. A string-keyed map of booleans, strings and nulls always
/// serializes, so a text always comes back; its layout is the
/// serializer's, so nothing more is promised of it.
#[verifier::external_body]
fn json_of_entries(entries: &Vec<(String, ConfigValue)>) -> (r: Option<String>)
    ensures
        r is Some,
{
    let m: std::collections::HashMap<&String, serde_yaml::Value> =
        entries.iter().map(|(k, v)| (k, match v {
            ConfigValue::Bool(b) => serde_yaml::Value::Bool(*b),
            ConfigValue::Text(s) => serde_yaml::Value::String(s.clone()),
            ConfigValue::Other => serde_yaml::Value::Null,
        })).collect();
    serde_json::to_string_pretty(&m).ok()
}

/// Relies on serde_yaml::to_string: prints the entries as a YAML
/// mapping. A string-keyed map of booleans, strings and nulls always
/// serializes, so a text always comes back; its layout is the
/// serializer's, so nothing more is promised of it.
#[verifier::external_body]
fn yaml_of_entries(entries: &Vec<(String, ConfigValue)>) -> (r: Option<String>)
    ensures
        r is Some,
{
    let m: std::collections::HashMap<&String, serde_yaml::Value> =
        entries.iter().map(|(k, v)| (k, match v {
            ConfigValue::Bool(b) => serde_yaml::Value::Bool(*b),
            ConfigValue::Text(s) => serde_yaml::Value::String(s.clone()),
            ConfigValue::Other => serde_yaml::Value::Null,
        })).collect();
    serde_yaml::to_string(&m).ok()
}

} // verus!
