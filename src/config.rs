//! The `key=value` settings file.
use vstd::prelude::*;

verus! {

/// The settings of one run.
#[derive(Debug)]
pub struct CodegenConfig {
    pub api_url: String,
    pub lang: String,
    pub gen_type: String,
    pub folder: String,
}

/// The four settings as character sequences.
pub ghost struct ConfigModel {
    pub api_url: Seq<char>,
    pub lang: Seq<char>,
    pub gen_type: Seq<char>,
    pub folder: Seq<char>,
}

impl View for CodegenConfig {
    type V = ConfigModel;

    open spec fn view(&self) -> ConfigModel {
        ConfigModel {
            api_url: self.api_url@,
            lang: self.lang@,
            gen_type: self.gen_type@,
            folder: self.folder@,
        }
    }
}

/// Why the settings file could not be read, as the file system reported it.
#[derive(Debug)]
pub enum ReadFailure {
    NotFound,
    PermissionDenied,
    Other(String),
}

/// Why no configuration came out of the settings file.
#[derive(Debug)]
pub enum ConfigError {
    NotFound,
    PermissionDenied,
    Unreadable(String),
    UnknownKey,
}

/// Every setting empty: what a file with no lines gives.
pub open spec fn empty_model() -> ConfigModel {
    ConfigModel {
        api_url: Seq::empty(),
        lang: Seq::empty(),
        gen_type: Seq::empty(),
        folder: Seq::empty(),
    }
}

/// The position of the first `c` in `s` at or after `i`, or the length of `s`.
pub open spec fn index_from(s: Seq<char>, c: char, i: int) -> int
    decreases s.len() - i,
{
    if i >= s.len() {
        s.len() as int
    } else if s[i] == c {
        i
    } else {
        index_from(s, c, i + 1)
    }
}

/// `acc` with the setting named `key` set to `value`; `None` when no setting has that name.
pub open spec fn assign(acc: ConfigModel, key: Seq<char>, value: Seq<char>) -> Option<ConfigModel> {
    if key == "api_url"@ {
        Some(ConfigModel { api_url: value, ..acc })
    } else if key == "lang"@ {
        Some(ConfigModel { lang: value, ..acc })
    } else if key == "gen_type"@ {
        Some(ConfigModel { gen_type: value, ..acc })
    } else if key == "folder"@ {
        Some(ConfigModel { folder: value, ..acc })
    } else {
        None
    }
}

/// The name that a line carries: what stands before its first `=`, or the whole line when it
/// has none.
pub open spec fn line_key(line: Seq<char>) -> Seq<char> {
    line.subrange(0, index_from(line, '=', 0))
}

/// The value that a line carries: what follows its first `=`. A line without `=` is all name,
/// and its value is empty, so a bare setting name empties that setting.
pub open spec fn line_value(line: Seq<char>) -> Seq<char> {
    let k = index_from(line, '=', 0);
    if k < line.len() {
        line.subrange(k + 1, line.len() as int)
    } else {
        Seq::empty()
    }
}

/// One line applied to the settings read so far: an empty line changes nothing, any other
/// sets the setting that it names, and a name other than the four is an error.
pub open spec fn apply_line(acc: ConfigModel, line: Seq<char>) -> Result<ConfigModel, ConfigError> {
    if line.len() == 0 {
        Ok(acc)
    } else {
        match assign(acc, line_key(line), line_value(line)) {
            Some(next) => Ok(next),
            None => Err(ConfigError::UnknownKey),
        }
    }
}

/// A line without its ending: a `\r` just before the `\n` belongs to the ending.
pub open spec fn strip_cr(line: Seq<char>) -> Seq<char> {
    if line.len() > 0 && line.last() == '\r' {
        line.drop_last()
    } else {
        line
    }
}

/// The settings that `rest` yields after `acc` was read from the earlier lines and `cur`
/// from the line begun so far. Lines are applied in order, so the last one that names a
/// setting wins, and the first bad line decides the error.
pub open spec fn parse_chars(acc: ConfigModel, cur: Seq<char>, rest: Seq<char>) -> Result<ConfigModel, ConfigError>
    decreases rest.len(),
{
    if rest.len() == 0 {
        apply_line(acc, cur)
    } else if rest[0] == '\n' {
        match apply_line(acc, strip_cr(cur)) {
            Ok(next) => parse_chars(next, Seq::empty(), rest.drop_first()),
            Err(e) => Err(e),
        }
    } else {
        parse_chars(acc, cur.push(rest[0]), rest.drop_first())
    }
}

/// What the settings file with contents `text` yields.
pub open spec fn config_of(text: Seq<char>) -> Result<ConfigModel, ConfigError> {
    parse_chars(empty_model(), Seq::empty(), text)
}

/// Where `index_from` lands when the first `c` at or after `i` stands at `j`.
pub proof fn lemma_index_from(s: Seq<char>, c: char, i: int, j: int)
    requires
        0 <= i <= j <= s.len(),
        forall|m: int| i <= m < j ==> s[m] != c,
        j == s.len() || s[j] == c,
    ensures
        index_from(s, c, i) == j,
    decreases j - i,
{
    if i < j {
        lemma_index_from(s, c, i + 1, j);
    }
}

/// Whether the characters of `text` in `from..to` spell `word`.
fn span_is(text: &str, from: usize, to: usize, word: &str) -> (r: bool)
    requires
        from <= to <= text@.len(),
    ensures
        r == (text@.subrange(from as int, to as int) == word@),
{
    let n = word.unicode_len();
    if to - from != n {
        return false;
    }
    let mut k: usize = 0;
    while k < n
        invariant
            n == word@.len(),
            to - from == n,
            from <= to <= text@.len(),
            k <= n,
            forall|m: int| 0 <= m < k ==> text@[from + m] == word@[m],
        decreases n - k,
    {
        if text.get_char(from + k) != word.get_char(k) {
            assert(text@.subrange(from as int, to as int)[k as int] != word@[k as int]);
            return false;
        }
        k = k + 1;
    }
    assert(text@.subrange(from as int, to as int) =~= word@);
    true
}

/// The characters of `text` in `from..to` as a new string.
fn span_string(text: &str, from: usize, to: usize) -> (r: String)
    requires
        from <= to <= text@.len(),
    ensures
        r@ == text@.subrange(from as int, to as int),
{
    String::from_str(text.substring_char(from, to))
}

/// Applies the line of `text` in `from..to` to `cfg`.
fn apply_line_at(text: &str, from: usize, to: usize, cfg: &mut CodegenConfig) -> (r: Result<(), ConfigError>)
    requires
        from <= to <= text@.len(),
    ensures
        match apply_line(old(cfg)@, text@.subrange(from as int, to as int)) {
            Ok(m) => r is Ok && final(cfg)@ == m,
            Err(e) => r == Err::<(), ConfigError>(e),
        },
{
    let ghost line = text@.subrange(from as int, to as int);
    if from == to {
        return Ok(());
    }
    let mut k: usize = from;
    while k < to && text.get_char(k) != '='
        invariant
            from <= k <= to <= text@.len(),
            forall|m: int| from <= m < k ==> text@[m] != '=',
        decreases to - k,
    {
        k = k + 1;
    }
    proof {
        lemma_index_from(line, '=', 0, k - from);
    }
    assert(line.subrange(0, k - from) =~= text@.subrange(from as int, k as int));
    let value = if k == to {
        String::new()
    } else {
        assert(line.subrange(k - from + 1, line.len() as int) =~= text@.subrange(k + 1, to as int));
        span_string(text, k + 1, to)
    };
    if span_is(text, from, k, "api_url") {
        cfg.api_url = value;
        Ok(())
    } else if span_is(text, from, k, "lang") {
        cfg.lang = value;
        Ok(())
    } else if span_is(text, from, k, "gen_type") {
        cfg.gen_type = value;
        Ok(())
    } else if span_is(text, from, k, "folder") {
        cfg.folder = value;
        Ok(())
    } else {
        Err(ConfigError::UnknownKey)
    }
}

/// Reads the settings out of the contents of a settings file.
pub fn parse_config(text: &str) -> (r: Result<CodegenConfig, ConfigError>)
    ensures
        match config_of(text@) {
            Ok(m) => r is Ok && r->Ok_0@ == m,
            Err(e) => r == Err::<CodegenConfig, ConfigError>(e),
        },
{
    let ghost s = text@;
    let n = text.unicode_len();
    let mut cfg = CodegenConfig {
        api_url: String::new(),
        lang: String::new(),
        gen_type: String::new(),
        folder: String::new(),
    };
    let mut start: usize = 0;
    let mut i: usize = 0;
    assert(s.subrange(0, 0) =~= Seq::<char>::empty());
    assert(s.subrange(0, n as int) =~= s);
    while i < n
        invariant
            n == s.len(),
            s == text@,
            start <= i <= n,
            parse_chars(cfg@, s.subrange(start as int, i as int), s.subrange(i as int, n as int))
                == config_of(s),
        decreases n - i,
    {
        let c = text.get_char(i);
        let ghost rest = s.subrange(i as int, n as int);
        assert(rest.drop_first() =~= s.subrange(i + 1, n as int));
        if c == '\n' {
            let mut end = i;
            if end > start && text.get_char(end - 1) == '\r' {
                end = end - 1;
            }
            assert(strip_cr(s.subrange(start as int, i as int)) =~= s.subrange(start as int, end as int));
            match apply_line_at(text, start, end, &mut cfg) {
                Ok(()) => {},
                Err(e) => {
                    return Err(e);
                },
            }
            start = i + 1;
            assert(s.subrange(start as int, start as int) =~= Seq::<char>::empty());
        } else {
            assert(s.subrange(start as int, i as int).push(c) =~= s.subrange(start as int, i + 1));
        }
        i = i + 1;
    }
    match apply_line_at(text, start, n, &mut cfg) {
        Ok(()) => Ok(cfg),
        Err(e) => Err(e),
    }
}

/// The first error decides: a file that could not be read yields no settings at all.
pub fn load_config(read: Result<String, ReadFailure>) -> (r: Result<CodegenConfig, ConfigError>)
    ensures
        match read {
            Ok(text) => match config_of(text@) {
                Ok(m) => r is Ok && r->Ok_0@ == m,
                Err(e) => r == Err::<CodegenConfig, ConfigError>(e),
            },
            Err(ReadFailure::NotFound) => r == Err::<CodegenConfig, ConfigError>(ConfigError::NotFound),
            Err(ReadFailure::PermissionDenied) => r == Err::<CodegenConfig, ConfigError>(
                ConfigError::PermissionDenied,
            ),
            Err(ReadFailure::Other(cause)) => r == Err::<CodegenConfig, ConfigError>(
                ConfigError::Unreadable(cause),
            ),
        },
{
    match read {
        Ok(text) => parse_config(text.as_str()),
        Err(ReadFailure::NotFound) => Err(ConfigError::NotFound),
        Err(ReadFailure::PermissionDenied) => Err(ConfigError::PermissionDenied),
        Err(ReadFailure::Other(cause)) => Err(ConfigError::Unreadable(cause)),
    }
}

impl ConfigError {
    /// The text shown to the user for this error.
    pub open spec fn message_spec(&self) -> Seq<char> {
        match self {
            ConfigError::NotFound => "Can't find \"codegen.config\" file"@,
            ConfigError::PermissionDenied => "Can't read config file"@,
            ConfigError::Unreadable(cause) => "Unknown error ("@ + cause@ + ")"@,
            ConfigError::UnknownKey => "Found unknown value in config file"@,
        }
    }

    pub fn message(&self) -> (r: String)
        ensures
            r@ == self.message_spec(),
    {
        match self {
            ConfigError::NotFound => String::from_str("Can't find \"codegen.config\" file"),
            ConfigError::PermissionDenied => String::from_str("Can't read config file"),
            ConfigError::Unreadable(cause) => {
                let mut m = String::from_str("Unknown error (");
                m.append(cause.as_str());
                m.append(")");
                m
            },
            ConfigError::UnknownKey => String::from_str("Found unknown value in config file"),
        }
    }
}

} // verus!
