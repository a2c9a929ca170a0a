//! The key settings file `quicksave.cfg`: reading it and writing it.
//!
//! The file is a list of lines. A line that, trimmed, starts with `save=` or
//! `load=` sets the save or load key to the hexadecimal number that follows
//! (itself trimmed); a line whose number does not parse, and any other line,
//! changes nothing. Later lines win over earlier ones.
use vstd::prelude::*;

use crate::numfmt::{hex_upper_2, lemma_hex_upper_2_parses, parse_u32, parse_u32_radix, push_hex_2};
use crate::text::{chars_of, lemma_trim_bounds, is_white_space, trim_end, trim_start, copy_range, has_prefix, push_all, starts_with, trim, trim_chars};
use crate::trusted::{vk_f5, vk_f9};

verus! {

/// The comment line that heads a written settings file.
pub open spec fn config_header() -> Seq<char> {
    "# しょぼんのアクション クイックセーブ設定"@
}

/// `save=`
pub open spec fn save_prefix() -> Seq<char> {
    seq!['s', 'a', 'v', 'e', '=']
}

/// `load=`
pub open spec fn load_prefix() -> Seq<char> {
    seq!['l', 'o', 'a', 'd', '=']
}

/// The keys `(save, load)` after one line of the file is read.
pub open spec fn apply_line(keys: (u32, u32), line: Seq<char>) -> (u32, u32) {
    let t = trim(line);
    if starts_with(t, save_prefix()) {
        match parse_u32(trim(t.skip(5)), 16) {
            Some(v) => (v, keys.1),
            None => keys,
        }
    } else if starts_with(t, load_prefix()) {
        match parse_u32(trim(t.skip(5)), 16) {
            Some(v) => (keys.0, v),
            None => keys,
        }
    } else {
        keys
    }
}

/// Reading `text` from the start, character by character: the keys after
/// the complete lines seen so far, and the unfinished last line.
pub open spec fn scan_config(keys: (u32, u32), text: Seq<char>) -> ((u32, u32), Seq<char>)
    decreases text.len(),
{
    if text.len() == 0 {
        (keys, Seq::empty())
    } else {
        let (k, line) = scan_config(keys, text.drop_last());
        if text.last() == '\n' {
            (apply_line(k, line), Seq::empty())
        } else {
            (k, line.push(text.last()))
        }
    }
}

/// The keys `(save, load)` that the file `text` sets, starting from `defaults`.
pub open spec fn config_keys(text: Seq<char>, defaults: (u32, u32)) -> (u32, u32) {
    let (k, line) = scan_config(defaults, text);
    apply_line(k, line)
}

/// The text of the file that records `save` and `load`.
pub open spec fn config_file(save: u32, load: u32) -> Seq<char> {
    config_header() + seq!['\n'] + save_prefix() + hex_upper_2(save as nat) + seq!['\n']
        + load_prefix() + hex_upper_2(load as nat) + seq!['\n']
}

/// The keys used when no settings file says otherwise: F5 saves, F9 loads.
pub fn default_keys() -> (keys: (u32, u32))
    ensures
        keys == (0x74u32, 0x78u32),
{
    let s: u16 = vk_f5();
    let l: u16 = vk_f9();
    (s as u32, l as u32)
}

/// The keys after reading one line.
pub fn apply_config_line(keys: (u32, u32), line: &Vec<char>) -> (r: (u32, u32))
    ensures
        r == apply_line(keys, line@),
{
    let t = trim_chars(line);
    let save = vec!['s', 'a', 'v', 'e', '='];
    let load = vec!['l', 'o', 'a', 'd', '='];
    assert(save@ == save_prefix());
    assert(load@ == load_prefix());
    if has_prefix(&t, &save) {
        let rest = copy_range(&t, 5, t.len());
        assert(rest@ == t@.skip(5));
        let value = trim_chars(&rest);
        match parse_u32_radix(&value, 16) {
            Some(v) => (v, keys.1),
            None => keys,
        }
    } else if has_prefix(&t, &load) {
        let rest = copy_range(&t, 5, t.len());
        assert(rest@ == t@.skip(5));
        let value = trim_chars(&rest);
        match parse_u32_radix(&value, 16) {
            Some(v) => (keys.0, v),
            None => keys,
        }
    } else {
        keys
    }
}

/// The keys `(save, load)` that the settings file `text` sets, starting from
/// `save_default` and `load_default`.
pub fn parse_config(text: &str, save_default: u32, load_default: u32) -> (keys: (u32, u32))
    ensures
        keys == config_keys(text@, (save_default, load_default)),
{
    let chars = chars_of(text);
    let mut keys = (save_default, load_default);
    let mut line: Vec<char> = Vec::new();
    let mut i: usize = 0;
    while i < chars.len()
        invariant
            i <= chars@.len(),
            chars@ == text@,
            (keys, line@) == scan_config((save_default, load_default), chars@.take(i as int)),
        decreases chars@.len() - i,
    {
        assert(chars@.take(i + 1).drop_last() == chars@.take(i as int));
        if chars[i] == '\n' {
            keys = apply_config_line(keys, &line);
            line = Vec::new();
        } else {
            line.push(chars[i]);
        }
        i = i + 1;
    }
    assert(chars@.take(chars@.len() as int) == chars@);
    apply_config_line(keys, &line)
}

/// The keys `(save, load)` that the settings file `text` sets, F5 and F9
/// where it sets none.
pub fn read_config(text: &str) -> (keys: (u32, u32))
    ensures
        keys == config_keys(text@, (0x74u32, 0x78u32)),
{
    let (s, l) = default_keys();
    parse_config(text, s, l)
}

/// The text of the settings file that records `save` and `load`, as the
/// configuration tool writes it.
pub fn config_text(save: u32, load: u32) -> (text: String)
    ensures
        text@ == config_file(save, load),
{
    let mut out = String::from_str("# しょぼんのアクション クイックセーブ設定");
    let mut tail: Vec<char> = Vec::new();
    tail.push('\n');
    tail.push('s');
    tail.push('a');
    tail.push('v');
    tail.push('e');
    tail.push('=');
    push_hex_2(&mut tail, save);
    tail.push('\n');
    tail.push('l');
    tail.push('o');
    tail.push('a');
    tail.push('d');
    tail.push('=');
    push_hex_2(&mut tail, load);
    tail.push('\n');
    push_all(&mut out, &tail);
    assert(out@ =~= config_file(save, load));
    out
}

proof fn lemma_scan_append_line(keys: (u32, u32), t: Seq<char>, u: Seq<char>)
    requires
        forall|i: int| 0 <= i < u.len() ==> #[trigger] u[i] != '\n',
    ensures
        scan_config(keys, t + u) == (scan_config(keys, t).0, scan_config(keys, t).1 + u),
    decreases u.len(),
{
    if u.len() == 0 {
        assert(t + u == t);
        assert(scan_config(keys, t).1 + u == scan_config(keys, t).1);
    } else {
        let v = u.drop_last();
        lemma_scan_append_line(keys, t, v);
        assert((t + u).drop_last() == t + v);
        assert((t + u).last() == u.last());
        assert(scan_config(keys, t).1 + v + seq![u.last()] == scan_config(keys, t).1 + u);
    }
}

proof fn lemma_scan_newline(keys: (u32, u32), t: Seq<char>)
    ensures
        scan_config(keys, t + seq!['\n']) == (
            apply_line(scan_config(keys, t).0, scan_config(keys, t).1),
            Seq::<char>::empty(),
        ),
{
    assert((t + seq!['\n']).drop_last() == t);
}

proof fn lemma_trim_plain(s: Seq<char>)
    requires
        s.len() > 0,
        !is_white_space(s[0]),
        !is_white_space(s.last()),
    ensures
        trim(s) == s,
{
}

proof fn lemma_apply_setting(keys: (u32, u32), prefix: Seq<char>, v: u32)
    requires
        prefix == save_prefix() || prefix == load_prefix(),
    ensures
        apply_line(keys, prefix + hex_upper_2(v as nat)) == (if prefix == save_prefix() {
            (v, keys.1)
        } else {
            (keys.0, v)
        }),
        forall|i: int|
            0 <= i < (prefix + hex_upper_2(v as nat)).len() ==> #[trigger] (prefix + hex_upper_2(
                v as nat,
            ))[i] != '\n',
{
    let h = hex_upper_2(v as nat);
    lemma_hex_upper_2_parses(v);
    let line = prefix + h;
    assert(line[0] == prefix[0]);
    assert(line.last() == h.last());
    assert(48 <= h[h.len() - 1] as int);
    lemma_trim_plain(line);
    assert(line.skip(5) == h);
    assert(48 <= h[0] as int);
    lemma_trim_plain(h);
    assert(line.subrange(0, 5) == prefix);
    if prefix == save_prefix() {
        assert(!starts_with(line, load_prefix())) by {
            assert(line.subrange(0, 5)[0] != load_prefix()[0]);
        }
    } else {
        assert(!starts_with(line, save_prefix())) by {
            assert(line.subrange(0, 5)[0] != save_prefix()[0]);
        }
    }
    assert forall|i: int| 0 <= i < line.len() implies #[trigger] line[i] != '\n' by {
        if i >= 5 {
            assert(line[i] == h[i - 5]);
        }
    }
}

proof fn lemma_header()
    ensures
        forall|i: int| 0 <= i < config_header().len() ==> #[trigger] config_header()[i] != '\n',
        forall|keys: (u32, u32)| #[trigger] apply_line(keys, config_header()) == keys,
{
    reveal_strlit("# しょぼんのアクション クイックセーブ設定");
    let h = config_header();
    assert(h[0] == '#');
    assert(!is_white_space(h.last()));
    lemma_trim_plain(h);
    assert(h.subrange(0, 5)[0] == '#');
}

/// Reading back a settings file written for `save` and `load` gives `save`
/// and `load`, whatever keys the reader started from.
pub proof fn lemma_config_round_trip(save: u32, load: u32, defaults: (u32, u32))
    ensures
        config_keys(config_file(save, load), defaults) == (save, load),
{
    let empty = Seq::<char>::empty();
    let h = config_header();
    let sl = save_prefix() + hex_upper_2(save as nat);
    let ll = load_prefix() + hex_upper_2(load as nat);
    lemma_header();
    lemma_apply_setting(defaults, save_prefix(), save);
    lemma_apply_setting((save, defaults.1), load_prefix(), load);
    let t1 = empty + h;
    lemma_scan_append_line(defaults, empty, h);
    assert(t1 == h);
    assert(scan_config(defaults, h) == (defaults, h));
    lemma_scan_newline(defaults, h);
    let t2 = h + seq!['\n'];
    assert(scan_config(defaults, t2) == (defaults, empty));
    lemma_scan_append_line(defaults, t2, sl);
    let t3 = t2 + sl;
    assert(scan_config(defaults, t3) == (defaults, sl));
    lemma_scan_newline(defaults, t3);
    let t4 = t3 + seq!['\n'];
    assert(scan_config(defaults, t4) == ((save, defaults.1), empty));
    lemma_scan_append_line(defaults, t4, ll);
    let t5 = t4 + ll;
    assert(scan_config(defaults, t5) == ((save, defaults.1), ll));
    lemma_scan_newline(defaults, t5);
    let t6 = t5 + seq!['\n'];
    assert(scan_config(defaults, t6) == ((save, load), empty));
    assert(t6 =~= config_file(save, load));
    assert(trim(empty) == empty);
}

/// The file is read line by line: the keys after a further line are those
/// that line gives to the keys after everything before it.
pub proof fn lemma_lines_in_order(text: Seq<char>, line: Seq<char>, defaults: (u32, u32))
    requires
        forall|i: int| 0 <= i < line.len() ==> #[trigger] line[i] != '\n',
    ensures
        config_keys(text + seq!['\n'] + line, defaults) == apply_line(
            config_keys(text, defaults),
            line,
        ),
{
    lemma_scan_newline(defaults, text);
    lemma_scan_append_line(defaults, text + seq!['\n'], line);
    assert(Seq::<char>::empty() + line == line);
}

/// A line `save=value` (or `load=value`), with `value` free of surrounding
/// white space, sets the save (or load) key to `value` read as hexadecimal
/// by `from_str_radix(value, 16)` in either case of letters, and changes
/// nothing when `value` does not read as a `u32`.
pub proof fn lemma_setting_line(keys: (u32, u32), prefix: Seq<char>, value: Seq<char>)
    requires
        prefix == save_prefix() || prefix == load_prefix(),
        trim(value) == value,
    ensures
        apply_line(keys, prefix + value) == match parse_u32(value, 16) {
            Some(v) => if prefix == save_prefix() {
                (v, keys.1)
            } else {
                (keys.0, v)
            },
            None => keys,
        },
{
    let line = prefix + value;
    let r = lemma_trim_bounds(value);
    if value.len() > 0 {
        assert(r.1 - r.0 == value.len());
        assert(value[0] == value.subrange(r.0, r.1)[0]);
        assert(value.last() == value.subrange(r.0, r.1)[value.len() - 1]);
        assert(line.last() == value.last());
    } else {
        assert(line == prefix);
        assert(line.last() == '=');
    }
    assert(line[0] == prefix[0]);
    lemma_trim_plain(line);
    assert(line.skip(5) == value);
    assert(line.subrange(0, 5) == prefix);
    if prefix == save_prefix() {
        assert(!starts_with(line, load_prefix())) by {
            assert(line.subrange(0, 5)[0] != load_prefix()[0]);
        }
    } else {
        assert(!starts_with(line, save_prefix())) by {
            assert(line.subrange(0, 5)[0] != save_prefix()[0]);
        }
    }
}

/// A line that, trimmed, starts with `#` (a comment) changes nothing.
pub proof fn lemma_comment_line(keys: (u32, u32), line: Seq<char>)
    requires
        trim(line).len() > 0,
        trim(line)[0] == '#',
    ensures
        apply_line(keys, line) == keys,
{
    let t = trim(line);
    if t.len() >= 5 {
        assert(t.subrange(0, 5)[0] == '#');
    }
}

} // verus!
