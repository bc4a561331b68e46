//! What holds of every settings file of a given shape.
use vstd::prelude::*;
use crate::config::{
    apply_line, assign, config_of, empty_model, lemma_index_from, line_key, line_value,
    parse_chars, strip_cr, ConfigError, ConfigModel,
};

verus! {

/// The file whose lines are `lines`, each ended by `\n`.
pub open spec fn join_lines(lines: Seq<Seq<char>>) -> Seq<char>
    decreases lines.len(),
{
    if lines.len() == 0 {
        Seq::empty()
    } else {
        lines[0] + seq!['\n'] + join_lines(lines.drop_first())
    }
}

/// The lines applied one after the other to `acc`, each without a final `\r`.
pub open spec fn fold_lines(acc: ConfigModel, lines: Seq<Seq<char>>) -> Result<ConfigModel, ConfigError>
    decreases lines.len(),
{
    if lines.len() == 0 {
        Ok(acc)
    } else {
        match apply_line(acc, strip_cr(lines[0])) {
            Ok(next) => fold_lines(next, lines.drop_first()),
            Err(e) => Err(e),
        }
    }
}

pub open spec fn no_newline(s: Seq<char>) -> bool {
    forall|i: int| 0 <= i < s.len() ==> s[i] != '\n'
}

/// Reading a line and its `\n` applies that line, then goes on with the rest.
proof fn lemma_scan_line(acc: ConfigModel, cur: Seq<char>, line: Seq<char>, rest: Seq<char>)
    requires
        no_newline(line),
    ensures
        parse_chars(acc, cur, line + seq!['\n'] + rest) == match apply_line(acc, strip_cr(cur + line)) {
            Ok(next) => parse_chars(next, Seq::empty(), rest),
            Err(e) => Err(e),
        },
    decreases line.len(),
{
    let s = line + seq!['\n'] + rest;
    if line.len() == 0 {
        assert(cur + line =~= cur);
        assert(s[0] == '\n');
        assert(s.drop_first() =~= rest);
    } else {
        assert(s[0] == line[0]);
        assert(s.drop_first() =~= line.drop_first() + seq!['\n'] + rest);
        assert(cur.push(line[0]) + line.drop_first() =~= cur + line);
        lemma_scan_line(acc, cur.push(line[0]), line.drop_first(), rest);
    }
}

/// Reading a last line that no `\n` ends applies that line as it stands.
proof fn lemma_scan_last(acc: ConfigModel, cur: Seq<char>, line: Seq<char>)
    requires
        no_newline(line),
    ensures
        parse_chars(acc, cur, line) == apply_line(acc, cur + line),
    decreases line.len(),
{
    if line.len() == 0 {
        assert(cur + line =~= cur);
    } else {
        assert(cur.push(line[0]) + line.drop_first() =~= cur + line);
        lemma_scan_last(acc, cur.push(line[0]), line.drop_first());
    }
}

/// Parsing whole lines and then `tail` is applying the lines in order, then reading `tail`.
pub proof fn lemma_parse_lines(acc: ConfigModel, lines: Seq<Seq<char>>, tail: Seq<char>)
    requires
        forall|i: int| 0 <= i < lines.len() ==> no_newline(#[trigger] lines[i]),
    ensures
        parse_chars(acc, Seq::empty(), join_lines(lines) + tail) == match fold_lines(acc, lines) {
            Ok(m) => parse_chars(m, Seq::empty(), tail),
            Err(e) => Err(e),
        },
    decreases lines.len(),
{
    if lines.len() == 0 {
        assert(join_lines(lines) + tail =~= tail);
    } else {
        let rest = lines.drop_first();
        assert(no_newline(lines[0]));
        lemma_scan_line(acc, Seq::empty(), lines[0], join_lines(rest) + tail);
        assert(Seq::<char>::empty() + lines[0] =~= lines[0]);
        assert(lines[0] + seq!['\n'] + (join_lines(rest) + tail) =~= join_lines(lines) + tail);
        match apply_line(acc, strip_cr(lines[0])) {
            Ok(next) => {
                assert forall|i: int| 0 <= i < rest.len() implies no_newline(#[trigger] rest[i]) by {
                    assert(rest[i] == lines[i + 1]);
                }
                lemma_parse_lines(next, rest, tail);
            },
            Err(e) => {},
        }
    }
}

/// Applying one more line after the others.
proof fn lemma_fold_push(acc: ConfigModel, lines: Seq<Seq<char>>, l: Seq<char>)
    ensures
        fold_lines(acc, lines.push(l)) == match fold_lines(acc, lines) {
            Ok(m) => apply_line(m, strip_cr(l)),
            Err(e) => Err(e),
        },
    decreases lines.len(),
{
    if lines.len() == 0 {
        assert(lines.push(l).drop_first() =~= Seq::<Seq<char>>::empty());
        assert(lines.push(l)[0] == l);
        assert(fold_lines(acc, lines) == Ok::<ConfigModel, ConfigError>(acc));
        match apply_line(acc, strip_cr(l)) {
            Ok(next) => {
                assert(fold_lines(next, Seq::<Seq<char>>::empty()) == Ok::<ConfigModel, ConfigError>(next));
            },
            Err(e) => {},
        }
    } else {
        assert(lines.push(l).drop_first() =~= lines.drop_first().push(l));
        assert(lines.push(l)[0] == lines[0]);
        match apply_line(acc, strip_cr(lines[0])) {
            Ok(next) => lemma_fold_push(next, lines.drop_first(), l),
            Err(e) => {},
        }
    }
}

/// The file with the given lines, the last of them ended by `\n` only when `final_newline`.
pub open spec fn file_text(lines: Seq<Seq<char>>, final_newline: bool) -> Seq<char> {
    if final_newline || lines.len() == 0 {
        join_lines(lines)
    } else {
        join_lines(lines.drop_last()) + lines.last()
    }
}

/// One of the four names that a settings line may carry.
pub open spec fn is_setting_name(key: Seq<char>) -> bool {
    key == "api_url"@ || key == "lang"@ || key == "gen_type"@ || key == "folder"@
}

/// A value that a line carries as it is: no line break in it, and no `\r` at its end.
pub open spec fn plain_value(v: Seq<char>) -> bool {
    no_newline(v) && (v.len() == 0 || v.last() != '\r')
}

/// The line `key=value`.
pub open spec fn setting_line(key: Seq<char>, value: Seq<char>) -> Seq<char> {
    key + seq!['='] + value
}

pub open spec fn entry_lines(entries: Seq<(Seq<char>, Seq<char>)>) -> Seq<Seq<char>> {
    Seq::new(entries.len(), |i: int| setting_line(entries[i].0, entries[i].1))
}

/// The settings after each `(name, value)` pair was set in order.
pub open spec fn fold_assign(acc: ConfigModel, entries: Seq<(Seq<char>, Seq<char>)>) -> ConfigModel
    decreases entries.len(),
{
    if entries.len() == 0 {
        acc
    } else {
        fold_assign(assign(acc, entries[0].0, entries[0].1)->0, entries.drop_first())
    }
}

/// What the proofs need to know of the four setting names: their lengths, which tell them
/// apart, and that none holds an `=` or a line break.
proof fn lemma_setting_names()
    ensures
        "api_url"@.len() == 7,
        "lang"@.len() == 4,
        "gen_type"@.len() == 8,
        "folder"@.len() == 6,
        forall|i: int| 0 <= i < 7 ==> "api_url"@[i] != '=' && "api_url"@[i] != '\n',
        forall|i: int| 0 <= i < 4 ==> "lang"@[i] != '=' && "lang"@[i] != '\n',
        forall|i: int| 0 <= i < 8 ==> "gen_type"@[i] != '=' && "gen_type"@[i] != '\n',
        forall|i: int| 0 <= i < 6 ==> "folder"@[i] != '=' && "folder"@[i] != '\n',
{
    reveal_strlit("api_url");
    reveal_strlit("lang");
    reveal_strlit("gen_type");
    reveal_strlit("folder");
}

proof fn lemma_names_have_no_equals(key: Seq<char>)
    requires
        is_setting_name(key),
    ensures
        forall|i: int| 0 <= i < key.len() ==> key[i] != '=' && key[i] != '\n',
        key.len() > 0,
{
    lemma_setting_names();
}

/// A `name=value` line with a known name sets that setting to the value, verbatim.
proof fn lemma_setting_line(acc: ConfigModel, key: Seq<char>, value: Seq<char>)
    requires
        is_setting_name(key),
        plain_value(value),
    ensures
        no_newline(setting_line(key, value)),
        apply_line(acc, strip_cr(setting_line(key, value))) == Ok::<ConfigModel, ConfigError>(
            assign(acc, key, value)->0,
        ),
        assign(acc, key, value) is Some,
{
    let line = setting_line(key, value);
    lemma_names_have_no_equals(key);
    assert(line.last() != '\r');
    assert(strip_cr(line) == line);
    assert forall|i: int| 0 <= i < line.len() implies line[i] != '\n' by {
        if i >= key.len() + 1 {
            assert(line[i] == value[i - key.len() - 1]);
        }
    }
    assert(line[key.len() as int] == '=');
    lemma_index_from(line, '=', 0, key.len() as int);
    assert(line.subrange(0, key.len() as int) =~= key);
    assert(line.subrange(key.len() as int + 1, line.len() as int) =~= value);
    assert(line_key(line) == key);
    assert(line_value(line) == value);
}

proof fn lemma_fold_entries(acc: ConfigModel, entries: Seq<(Seq<char>, Seq<char>)>)
    requires
        forall|i: int| 0 <= i < entries.len() ==> is_setting_name(#[trigger] entries[i].0) && plain_value(
            entries[i].1,
        ),
    ensures
        fold_lines(acc, entry_lines(entries)) == Ok::<ConfigModel, ConfigError>(fold_assign(acc, entries)),
        forall|i: int| 0 <= i < entries.len() ==> no_newline(#[trigger] entry_lines(entries)[i]),
    decreases entries.len(),
{
    let lines = entry_lines(entries);
    assert forall|i: int| 0 <= i < entries.len() implies no_newline(#[trigger] entry_lines(entries)[i]) by {
        lemma_setting_line(acc, entries[i].0, entries[i].1);
    }
    if entries.len() > 0 {
        lemma_setting_line(acc, entries[0].0, entries[0].1);
        let rest = entries.drop_first();
        assert(lines.drop_first() =~= entry_lines(rest));
        assert forall|i: int| 0 <= i < rest.len() implies is_setting_name(#[trigger] rest[i].0) && plain_value(
            rest[i].1,
        ) by {
            assert(rest[i] == entries[i + 1]);
        }
        lemma_fold_entries(assign(acc, entries[0].0, entries[0].1)->0, rest);
    }
}

/// The setting called `key` in `m`.
pub open spec fn setting(m: ConfigModel, key: Seq<char>) -> Seq<char> {
    if key == "api_url"@ {
        m.api_url
    } else if key == "lang"@ {
        m.lang
    } else if key == "gen_type"@ {
        m.gen_type
    } else {
        m.folder
    }
}

proof fn lemma_assign_setting(acc: ConfigModel, key: Seq<char>, value: Seq<char>, k: Seq<char>)
    requires
        is_setting_name(key),
        is_setting_name(k),
    ensures
        setting(assign(acc, key, value)->0, k) == if k == key {
            value
        } else {
            setting(acc, k)
        },
{
    lemma_setting_names();
}

/// With no name twice, each setting ends up with the value of the pair that names it, and a
/// setting that no pair names keeps its earlier value.
proof fn lemma_fold_assign_unique(acc: ConfigModel, entries: Seq<(Seq<char>, Seq<char>)>, k: Seq<char>)
    requires
        is_setting_name(k),
        forall|i: int| 0 <= i < entries.len() ==> is_setting_name(#[trigger] entries[i].0),
        forall|i: int, j: int|
            0 <= i < entries.len() && 0 <= j < entries.len() && #[trigger] entries[i].0 == #[trigger] entries[j].0
                ==> i == j,
    ensures
        forall|i: int| 0 <= i < entries.len() && entries[i].0 == k ==> setting(fold_assign(acc, entries), k) == #[trigger] entries[i].1,
        (forall|i: int| 0 <= i < entries.len() ==> #[trigger] entries[i].0 != k) ==> setting(fold_assign(acc, entries), k) == setting(acc, k),
    decreases entries.len(),
{
    if entries.len() > 0 {
        let rest = entries.drop_first();
        let next = assign(acc, entries[0].0, entries[0].1)->0;
        assert forall|i: int| 0 <= i < rest.len() implies is_setting_name(#[trigger] rest[i].0) by {
            assert(rest[i] == entries[i + 1]);
        }
        assert forall|i: int, j: int|
            0 <= i < rest.len() && 0 <= j < rest.len() && #[trigger] rest[i].0 == #[trigger] rest[j].0 implies i == j by {
            assert(rest[i] == entries[i + 1]);
            assert(rest[j] == entries[j + 1]);
        }
        lemma_fold_assign_unique(next, rest, k);
        lemma_assign_setting(acc, entries[0].0, entries[0].1, k);
        assert(fold_assign(acc, entries) == fold_assign(next, rest));
        if entries[0].0 == k {
            assert forall|i: int| 0 <= i < rest.len() implies #[trigger] rest[i].0 != k by {
                assert(rest[i] == entries[i + 1]);
            }
        }
        assert forall|i: int| 0 <= i < entries.len() && entries[i].0 == k implies setting(
            fold_assign(acc, entries),
            k,
        ) == #[trigger] entries[i].1 by {
            if i > 0 {
                assert(rest[i - 1] == entries[i]);
            }
        }
        if forall|i: int| 0 <= i < entries.len() ==> #[trigger] entries[i].0 != k {
            assert forall|i: int| 0 <= i < rest.len() implies #[trigger] rest[i].0 != k by {
                assert(rest[i] == entries[i + 1]);
            }
        }
    }
}

/// A file of `name=value` lines, each with one of the four names and no name twice, yields a
/// configuration whose settings are the values exactly as written, whatever the order of the
/// lines and whether or not the last line ends with a line break.
pub proof fn lemma_settings_verbatim(entries: Seq<(Seq<char>, Seq<char>)>, final_newline: bool)
    requires
        forall|i: int| 0 <= i < entries.len() ==> is_setting_name(#[trigger] entries[i].0) && plain_value(
            entries[i].1,
        ),
        forall|i: int, j: int|
            0 <= i < entries.len() && 0 <= j < entries.len() && #[trigger] entries[i].0 == #[trigger] entries[j].0
                ==> i == j,
    ensures
        config_of(file_text(entry_lines(entries), final_newline)) is Ok,
        ({
            let m = config_of(file_text(entry_lines(entries), final_newline))->Ok_0;
            &&& forall|i: int| 0 <= i < entries.len() && entries[i].0 == "api_url"@ ==> m.api_url == #[trigger] entries[i].1
            &&& forall|i: int| 0 <= i < entries.len() && entries[i].0 == "lang"@ ==> m.lang == #[trigger] entries[i].1
            &&& forall|i: int| 0 <= i < entries.len() && entries[i].0 == "gen_type"@ ==> m.gen_type == #[trigger] entries[i].1
            &&& forall|i: int| 0 <= i < entries.len() && entries[i].0 == "folder"@ ==> m.folder == #[trigger] entries[i].1
        }),
{
    lemma_fold_entries(empty_model(), entries);
    let lines = entry_lines(entries);
    if final_newline || lines.len() == 0 {
        lemma_parse_lines(empty_model(), lines, Seq::empty());
        assert(join_lines(lines) + Seq::<char>::empty() =~= join_lines(lines));
    } else {
        let init = lines.drop_last();
        let n = lines.len() - 1;
        assert forall|i: int| 0 <= i < init.len() implies no_newline(#[trigger] init[i]) by {
            assert(init[i] == lines[i]);
        }
        lemma_parse_lines(empty_model(), init, lines.last());
        assert(no_newline(lines[n]));
        lemma_setting_line(empty_model(), entries[n].0, entries[n].1);
        assert(strip_cr(lines.last()) == lines.last());
        assert(Seq::<char>::empty() + lines.last() =~= lines.last());
        match fold_lines(empty_model(), init) {
            Ok(m) => lemma_scan_last(m, Seq::empty(), lines.last()),
            Err(e) => {},
        }
        lemma_fold_push(empty_model(), init, lines.last());
        assert(init.push(lines.last()) =~= lines);
    }
    assert forall|i: int| 0 <= i < entries.len() implies is_setting_name(#[trigger] entries[i].0) by {}
    lemma_setting_names();
    lemma_fold_assign_unique(empty_model(), entries, "api_url"@);
    lemma_fold_assign_unique(empty_model(), entries, "lang"@);
    lemma_fold_assign_unique(empty_model(), entries, "gen_type"@);
    lemma_fold_assign_unique(empty_model(), entries, "folder"@);
    let m = fold_assign(empty_model(), entries);
    assert(config_of(file_text(entry_lines(entries), final_newline)) == Ok::<ConfigModel, ConfigError>(m));
    assert(setting(m, "api_url"@) == m.api_url);
    assert(setting(m, "lang"@) == m.lang);
    assert(setting(m, "gen_type"@) == m.gen_type);
    assert(setting(m, "folder"@) == m.folder);
}

/// The line, without a final `\r`, is not empty and the name it carries is none of the four.
pub open spec fn names_unknown_key(line: Seq<char>) -> bool {
    let l = strip_cr(line);
    l.len() > 0 && !is_setting_name(line_key(l))
}

/// The line, without a final `\r`, is empty or sets one of the four settings.
pub open spec fn is_blank_or_setting(line: Seq<char>) -> bool {
    let l = strip_cr(line);
    l.len() == 0 || is_setting_name(line_key(l))
}

proof fn lemma_fold_unknown_key(acc: ConfigModel, lines: Seq<Seq<char>>, j: int)
    requires
        0 <= j < lines.len(),
        names_unknown_key(lines[j]),
    ensures
        fold_lines(acc, lines) is Err,
        (forall|i: int| 0 <= i < j ==> is_blank_or_setting(#[trigger] lines[i])) ==> fold_lines(acc, lines)
            == Err::<ConfigModel, ConfigError>(ConfigError::UnknownKey),
    decreases j,
{
    if j > 0 {
        match apply_line(acc, strip_cr(lines[0])) {
            Ok(next) => {
                assert(lines.drop_first()[j - 1] == lines[j]);
                lemma_fold_unknown_key(next, lines.drop_first(), j - 1);
                if forall|i: int| 0 <= i < j ==> is_blank_or_setting(#[trigger] lines[i]) {
                    assert forall|i: int| 0 <= i < j - 1 implies is_blank_or_setting(
                        #[trigger] lines.drop_first()[i],
                    ) by {
                        assert(lines.drop_first()[i] == lines[i + 1]);
                    }
                }
            },
            Err(e) => {
                if forall|i: int| 0 <= i < j ==> is_blank_or_setting(#[trigger] lines[i]) {
                    assert(is_blank_or_setting(lines[0]));
                }
            },
        }
    }
}

/// A file with a line that names an unknown setting yields an error and no configuration;
/// that error is the unknown-name one unless an earlier line is malformed in another way.
pub proof fn lemma_unknown_key_rejected(lines: Seq<Seq<char>>, j: int)
    requires
        forall|i: int| 0 <= i < lines.len() ==> no_newline(#[trigger] lines[i]),
        0 <= j < lines.len(),
        names_unknown_key(lines[j]),
    ensures
        config_of(join_lines(lines)) is Err,
        (forall|i: int| 0 <= i < j ==> is_blank_or_setting(#[trigger] lines[i])) ==> config_of(
            join_lines(lines),
        ) == Err::<ConfigModel, ConfigError>(ConfigError::UnknownKey),
{
    lemma_parse_lines(empty_model(), lines, Seq::empty());
    assert(join_lines(lines) + Seq::<char>::empty() =~= join_lines(lines));
    lemma_fold_unknown_key(empty_model(), lines, j);
}

} // verus!
