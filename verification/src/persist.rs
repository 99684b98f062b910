//! The offset store: the keys and the path under which a calibration offset
//! is kept, and the text record that holds it.

use vstd::prelude::*;
use crate::decimal::{
    is_digit, lemma_parse_render, lemma_render_nat, lemma_render_padded,
    lemma_trim_zeros, magnitude, parse_range, render_nat, render_padded, spec_parse, spec_render,
    trim_zeros,
};
use crate::fixed::Fixed;
use crate::offset::{clamp_offset, dist, Offset};
use crate::text::{
    after_token, chars_of, first_token, is_whitespace, lemma_first_token, next_token,
};

verus! {

/// What the surroundings of the process say, as far as the store reads it.
#[derive(Debug)]
pub struct Environment {
    /// The configured root for state files, where one is set.
    pub state_home: Option<String>,
    /// The user's home directory, where it is known.
    pub home: Option<String>,
    /// The name of the output that the panel is on, where it is given.
    pub panel_output: Option<String>,
    /// The identity signals, one for each name of [`instance_signals`] and in
    /// that order; `None` where a signal is not set.
    pub instance_signals: Vec<Option<String>>,
}

/// Whether `c` may stand in a key unchanged: an ASCII letter, an ASCII digit,
/// a hyphen or an underscore.
pub open spec fn is_key_char(c: char) -> bool {
    ||| ('a' <= c && c <= 'z')
    ||| ('A' <= c && c <= 'Z')
    ||| ('0' <= c && c <= '9')
    ||| c == '-'
    ||| c == '_'
}

/// The character that stands in a key for `c`.
pub open spec fn sanitize_char(c: char) -> char {
    if is_key_char(c) {
        c
    } else {
        '_'
    }
}

/// The key that stands where nothing else is given.
pub open spec fn default_key() -> Seq<char> {
    seq!['d', 'e', 'f', 'a', 'u', 'l', 't']
}

/// The key made from `raw`: `raw` with every character outside the key
/// characters, white space included, replaced by an underscore; the default
/// key where `raw` is empty.
pub open spec fn spec_sanitize_key(raw: Seq<char>) -> Seq<char> {
    if raw.len() == 0 {
        default_key()
    } else {
        Seq::new(raw.len(), |i: int| sanitize_char(raw[i]))
    }
}

/// Whether a signal is set and not empty.
pub open spec fn present(signal: Option<String>) -> bool {
    match signal {
        Some(s) => s@.len() > 0,
        None => false,
    }
}

/// The first of `signals` that is present.
pub open spec fn first_present(signals: Seq<Option<String>>) -> Option<Seq<char>>
    decreases signals.len(),
{
    if signals.len() == 0 {
        None
    } else if present(signals.first()) {
        Some(signals.first()->0@)
    } else {
        first_present(signals.drop_first())
    }
}

/// The key of the output: made from its name, or the default key.
pub open spec fn spec_output_key(env: Environment) -> Seq<char> {
    match env.panel_output {
        Some(name) => spec_sanitize_key(name@),
        None => default_key(),
    }
}

/// The key of the instance: made from the first identity signal that is
/// present, or the default key.
pub open spec fn spec_instance_key(env: Environment) -> Seq<char> {
    match first_present(env.instance_signals@) {
        Some(raw) => spec_sanitize_key(raw),
        None => default_key(),
    }
}

/// `base` with the relative path `segment` below it.
pub open spec fn spec_join(base: Seq<char>, segment: Seq<char>) -> Seq<char> {
    if base.len() == 0 || base.last() == '/' {
        base + segment
    } else {
        base + seq!['/'] + segment
    }
}

/// The root for state files: the configured one, else `.local/state` below
/// the home directory, else none.
pub open spec fn spec_state_dir(env: Environment) -> Option<Seq<char>> {
    match env.state_home {
        Some(dir) => Some(dir@),
        None => match env.home {
            Some(home) => Some(spec_join(home@, ".local/state"@)),
            None => None,
        },
    }
}

/// The name of the file for an output and an instance.
pub open spec fn spec_offset_file(output: Seq<char>, instance: Seq<char>) -> Seq<char> {
    "offset-"@ + output + "-"@ + instance + ".txt"@
}

/// The name of the file that an output had before instances were told apart.
pub open spec fn spec_legacy_file(output: Seq<char>) -> Seq<char> {
    "offset-"@ + output + ".txt"@
}

/// The path of the offset file.
pub open spec fn spec_offset_path(env: Environment) -> Option<Seq<char>> {
    match spec_state_dir(env) {
        Some(dir) => Some(
            spec_join(
                spec_join(dir, "cosmic-ext-eyes"@),
                spec_offset_file(spec_output_key(env), spec_instance_key(env)),
            ),
        ),
        None => None,
    }
}

/// The path of the legacy offset file.
pub open spec fn spec_legacy_offset_path(env: Environment) -> Option<Seq<char>> {
    match spec_state_dir(env) {
        Some(dir) => Some(
            spec_join(spec_join(dir, "cosmic-ext-eyes"@), spec_legacy_file(spec_output_key(env))),
        ),
        None => None,
    }
}

/// Executable form of [`is_key_char`].
pub fn key_char(c: char) -> (ok: bool)
    ensures
        ok == is_key_char(c),
{
    (c >= 'a' && c <= 'z') || (c >= 'A' && c <= 'Z') || (c >= '0' && c <= '9') || c == '-' || c
        == '_'
}

fn default_key_string() -> (key: String)
    ensures
        key@ == default_key(),
{
    proof {
        reveal_strlit("default");
    }
    String::from_str("default")
}

/// The key made from `raw`.
pub fn sanitize_key(raw: &str) -> (key: String)
    ensures
        key@ == spec_sanitize_key(raw@),
{
    let v: Vec<char> = chars_of(raw);
    if v.len() == 0 {
        return default_key_string();
    }
    let mut key = String::new();
    let mut i: usize = 0;
    while i < v.len()
        invariant
            i <= v.len(),
            key@ == Seq::new(i as nat, |k: int| sanitize_char(v@[k])),
        decreases v.len() - i,
    {
        let c: char = v[i];
        if key_char(c) {
            key.push(c);
        } else {
            key.push('_');
        }
        i += 1;
    }
    key
}

/// The key of the output.
pub fn output_key(env: &Environment) -> (key: String)
    ensures
        key@ == spec_output_key(*env),
{
    match &env.panel_output {
        Some(name) => sanitize_key(name.as_str()),
        None => default_key_string(),
    }
}

/// The names of the identity signals, in the order of preference: the
/// explicit key first, then what tells applet, panel and dock instances
/// apart.
pub fn instance_signals() -> (names: Vec<&'static str>)
    ensures
        names@.len() == 12,
        names@[0]@ == "COSMIC_EYES_OFFSET_KEY"@,
        names@[1]@ == "COSMIC_APPLET_INSTANCE"@,
        names@[2]@ == "COSMIC_APPLET_INSTANCE_ID"@,
        names@[3]@ == "COSMIC_APPLET_UUID"@,
        names@[4]@ == "COSMIC_PANEL_INSTANCE"@,
        names@[5]@ == "COSMIC_PANEL_NAME"@,
        names@[6]@ == "COSMIC_PANEL_ANCHOR"@,
        names@[7]@ == "COSMIC_PANEL_EDGE"@,
        names@[8]@ == "COSMIC_DOCK_INSTANCE"@,
        names@[9]@ == "COSMIC_DOCK_NAME"@,
        names@[10]@ == "COSMIC_DOCK_ANCHOR"@,
        names@[11]@ == "COSMIC_DOCK_EDGE"@,
{
    let mut names: Vec<&'static str> = Vec::new();
    names.push("COSMIC_EYES_OFFSET_KEY");
    names.push("COSMIC_APPLET_INSTANCE");
    names.push("COSMIC_APPLET_INSTANCE_ID");
    names.push("COSMIC_APPLET_UUID");
    names.push("COSMIC_PANEL_INSTANCE");
    names.push("COSMIC_PANEL_NAME");
    names.push("COSMIC_PANEL_ANCHOR");
    names.push("COSMIC_PANEL_EDGE");
    names.push("COSMIC_DOCK_INSTANCE");
    names.push("COSMIC_DOCK_NAME");
    names.push("COSMIC_DOCK_ANCHOR");
    names.push("COSMIC_DOCK_EDGE");
    names
}

/// The key of the instance.
pub fn instance_key(env: &Environment) -> (key: String)
    ensures
        key@ == spec_instance_key(*env),
{
    let signals = &env.instance_signals;
    let mut i: usize = 0;
    assert(signals@.subrange(0, signals.len() as int) == signals@);
    while i < signals.len()
        invariant
            i <= signals.len(),
            signals@ == env.instance_signals@,
            first_present(signals@) == first_present(
                signals@.subrange(i as int, signals.len() as int),
            ),
        decreases signals.len() - i,
    {
        let ghost rest = signals@.subrange(i as int, signals.len() as int);
        assert(rest.drop_first() == signals@.subrange(i + 1, signals.len() as int));
        match &signals[i] {
            Some(raw) => {
                if !raw.as_str().is_empty() {
                    return sanitize_key(raw.as_str());
                }
            },
            None => {},
        }
        i += 1;
    }
    default_key_string()
}

fn join(base: String, segment: &str) -> (path: String)
    ensures
        path@ == spec_join(base@, segment@),
{
    let v: Vec<char> = chars_of(base.as_str());
    let mut path: String = base;
    if v.len() > 0 && v[v.len() - 1] != '/' {
        path.push('/');
    }
    path.append(segment);
    path
}

/// The root for state files.
pub fn state_dir(env: &Environment) -> (dir: Option<String>)
    ensures
        match dir {
            Some(d) => spec_state_dir(*env) == Some(d@),
            None => spec_state_dir(*env) is None,
        },
{
    match &env.state_home {
        Some(dir) => Some(dir.clone()),
        None => match &env.home {
            Some(home) => Some(join(home.clone(), ".local/state")),
            None => None,
        },
    }
}

/// The path of the offset file, where there is a root for state files.
pub fn offset_path(env: &Environment) -> (path: Option<String>)
    ensures
        match path {
            Some(p) => spec_offset_path(*env) == Some(p@),
            None => spec_offset_path(*env) is None,
        },
{
    match state_dir(env) {
        Some(dir) => {
            let mut file: String = String::from_str("offset-");
            file.append(output_key(env).as_str());
            file.append("-");
            file.append(instance_key(env).as_str());
            file.append(".txt");
            Some(join(join(dir, "cosmic-ext-eyes"), file.as_str()))
        },
        None => None,
    }
}

/// The path of the legacy offset file, where there is a root for state files.
pub fn legacy_offset_path(env: &Environment) -> (path: Option<String>)
    ensures
        match path {
            Some(p) => spec_legacy_offset_path(*env) == Some(p@),
            None => spec_legacy_offset_path(*env) is None,
        },
{
    match state_dir(env) {
        Some(dir) => {
            let mut file: String = String::from_str("offset-");
            file.append(output_key(env).as_str());
            file.append(".txt");
            Some(join(join(dir, "cosmic-ext-eyes"), file.as_str()))
        },
        None => None,
    }
}

/// Sanitizing is idempotent: a key is made of key characters only, at least
/// one of them, and the key made from a key is that key.
pub proof fn lemma_sanitize_idempotent(raw: Seq<char>)
    ensures
        spec_sanitize_key(raw).len() > 0,
        forall|i: int|
            0 <= i < spec_sanitize_key(raw).len() ==> is_key_char(
                #[trigger] spec_sanitize_key(raw)[i],
            ),
        spec_sanitize_key(spec_sanitize_key(raw)) == spec_sanitize_key(raw),
{
    let key = spec_sanitize_key(raw);
    assert forall|i: int| 0 <= i < key.len() implies is_key_char(#[trigger] key[i]) by {}
    assert(spec_sanitize_key(key) =~= key);
}

/// A stored offset: the display scale at which it was calibrated, and the
/// offset.
#[derive(Clone, Copy, Debug, PartialEq, Eq, Structural)]
pub struct Record {
    pub scale: Fixed,
    pub offset: Offset,
}

/// The largest difference, in units, between a stored scale and the current
/// one at which a stored offset still applies: one hundredth.
pub const SCALE_TOLERANCE: i64 = 10_000;

/// What the text of a record holds: its first three fields, separated by
/// white space, write the scale and the two components of an offset, each
/// component within the limit. Fields beyond the third are not read.
pub open spec fn record_of(text: Seq<char>) -> Option<(int, int, int)> {
    let rest = after_token(text);
    let last = after_token(rest);
    match (spec_parse(first_token(text)), spec_parse(first_token(rest)), spec_parse(
        first_token(last),
    )) {
        (Some(scale), Some(dx), Some(dy)) => if clamp_offset(dx) == dx && clamp_offset(dy)
            == dy {
            Some((scale, dx, dy))
        } else {
            None
        },
        _ => None,
    }
}

/// The text of a record: the three numbers with a space between them, and a
/// line end.
pub open spec fn record_text(scale: int, dx: int, dy: int) -> Seq<char> {
    spec_render(scale) + seq![' '] + spec_render(dx) + seq![' '] + spec_render(dy) + seq!['\n']
}

/// Whether an offset stored at scale `saved` applies at scale `current`:
/// the two differ by at most one hundredth.
pub open spec fn scale_matches(saved: int, current: int) -> bool {
    dist(saved, current) <= SCALE_TOLERANCE
}

/// The text of a file that may be absent.
pub open spec fn opt_text(file: Option<&str>) -> Option<Seq<char>> {
    match file {
        Some(text) => Some(text@),
        None => None,
    }
}

/// The record that is read: that of the keyed file where this file is there
/// and holds one, else that of the legacy file.
pub open spec fn record_read(keyed: Option<Seq<char>>, legacy: Option<Seq<char>>) -> Option<
    (int, int, int),
> {
    let first = match keyed {
        Some(text) => record_of(text),
        None => None,
    };
    if first is Some {
        first
    } else {
        match legacy {
            Some(text) => record_of(text),
            None => None,
        }
    }
}

/// The offset that is loaded at scale `current`: that of the record that is
/// read, where its scale matches.
pub open spec fn spec_load(current: int, keyed: Option<Seq<char>>, legacy: Option<Seq<char>>) -> Option<
    (int, int),
> {
    match record_read(keyed, legacy) {
        Some((saved, dx, dy)) => if scale_matches(saved, current) {
            Some((dx, dy))
        } else {
            None
        },
        None => None,
    }
}

/// The record that `text` holds.
pub fn parse_record(text: &str) -> (r: Option<Record>)
    ensures
        match r {
            Some(record) => record_of(text@) == Some(
                (record.scale.units(), record.offset.dx(), record.offset.dy()),
            ),
            None => record_of(text@) is None,
        },
{
    let v: Vec<char> = chars_of(text);
    assert(v@.skip(0) =~= v@);
    let (a1, b1) = next_token(&v, 0);
    let (a2, b2) = next_token(&v, b1);
    let (a3, b3) = next_token(&v, b2);
    let scale: Fixed = match parse_range(&v, a1, b1) {
        Some(f) => f,
        None => {
            return None;
        },
    };
    let dx: Fixed = match parse_range(&v, a2, b2) {
        Some(f) => f,
        None => {
            return None;
        },
    };
    let dy: Fixed = match parse_range(&v, a3, b3) {
        Some(f) => f,
        None => {
            return None;
        },
    };
    match Offset::new(dx, dy) {
        Some(offset) => Some(Record { scale, offset }),
        None => None,
    }
}

/// Whether an offset stored at scale `saved` applies at scale `current`.
pub fn scale_applies(saved: Fixed, current: Fixed) -> (b: bool)
    ensures
        b == scale_matches(saved.units(), current.units()),
{
    let d: i128 = saved.raw as i128 - current.raw as i128;
    -(SCALE_TOLERANCE as i128) <= d && d <= SCALE_TOLERANCE as i128
}

/// The offset to use at `current_scale`, given the text of the keyed file
/// and of the legacy file, each `None` where the file could not be read.
pub fn load_offset(current_scale: Fixed, keyed: Option<&str>, legacy: Option<&str>) -> (o: Option<
    Offset,
>)
    ensures
        match o {
            Some(offset) => spec_load(current_scale.units(), opt_text(keyed), opt_text(legacy))
                == Some((offset.dx(), offset.dy())),
            None => spec_load(current_scale.units(), opt_text(keyed), opt_text(legacy)) is None,
        },
{
    let first: Option<Record> = match keyed {
        Some(text) => parse_record(text),
        None => None,
    };
    let record: Option<Record> = match first {
        Some(r) => Some(r),
        None => match legacy {
            Some(text) => parse_record(text),
            None => None,
        },
    };
    match record {
        Some(r) => {
            if scale_applies(r.scale, current_scale) {
                Some(r.offset)
            } else {
                None
            }
        },
        None => None,
    }
}

/// The text of the record that stores `offset` as calibrated at
/// `current_scale`.
pub fn save_offset(current_scale: Fixed, offset: Offset) -> (text: String)
    ensures
        text@ == record_text(current_scale.units(), offset.dx(), offset.dy()),
{
    let mut text = String::new();
    current_scale.push_to(&mut text);
    text.push(' ');
    offset.x().push_to(&mut text);
    text.push(' ');
    offset.y().push_to(&mut text);
    text.push('\n');
    text
}

/// The text of a number is a field: it is not empty and holds no white
/// space.
pub proof fn lemma_render_is_field(v: int)
    ensures
        spec_render(v).len() > 0,
        forall|i: int| 0 <= i < spec_render(v).len() ==> !is_whitespace(#[trigger] spec_render(v)[i]),
{
    let m = magnitude(v);
    let digits = render_nat(m / 1_000_000);
    let padded = render_padded(m % 1_000_000, 6);
    let kept = trim_zeros(padded);
    lemma_render_nat(m / 1_000_000);
    lemma_render_padded(m % 1_000_000, 6);
    lemma_trim_zeros(padded);
    let text = spec_render(v);
    let sign = if v < 0 {
        seq!['-']
    } else {
        Seq::<char>::empty()
    };
    assert forall|i: int| 0 <= i < text.len() implies !is_whitespace(#[trigger] text[i]) by {
        if i < sign.len() {
            assert(text[i] == '-');
        } else if i < sign.len() + digits.len() {
            assert(is_digit(digits[i - sign.len()]));
        } else if i == sign.len() + digits.len() {
            assert(text[i] == '.');
        } else {
            assert(is_digit(kept[i - sign.len() - digits.len() - 1]));
        }
    }
}

/// A record that was written is read back as it was written.
pub proof fn lemma_record_round_trip(scale: int, dx: int, dy: int)
    requires
        i64::MIN <= scale <= i64::MAX,
        clamp_offset(dx) == dx,
        clamp_offset(dy) == dy,
    ensures
        record_of(record_text(scale, dx, dy)) == Some((scale, dx, dy)),
{
    let a = spec_render(scale);
    let b = spec_render(dx);
    let c = spec_render(dy);
    let end = seq!['\n'];
    let tail2 = seq![' '] + c + end;
    let tail1 = seq![' '] + b + tail2;
    let text = record_text(scale, dx, dy);
    lemma_render_is_field(scale);
    lemma_render_is_field(dx);
    lemma_render_is_field(dy);
    lemma_parse_render(scale);
    lemma_parse_render(dx);
    lemma_parse_render(dy);
    assert(text =~= a + tail1);
    lemma_first_token(a, tail1);
    lemma_first_token(b, tail2);
    assert(first_token(tail1) == first_token(b + tail2) && after_token(tail1) == after_token(
        b + tail2,
    )) by {
        assert(tail1.drop_first() =~= b + tail2);
    }
    lemma_first_token(c, end);
    assert(first_token(tail2) == first_token(c + end)) by {
        assert(tail2.drop_first() =~= c + end);
    }
}

/// Loading returns what was saved: an offset that was stored at a scale
/// within one hundredth of the current one is loaded exactly, whatever the
/// legacy file holds.
pub proof fn lemma_load_after_save(
    saved_scale: Fixed,
    offset: Offset,
    current_scale: Fixed,
    legacy: Option<Seq<char>>,
)
    requires
        offset.valid(),
        scale_matches(saved_scale.units(), current_scale.units()),
    ensures
        spec_load(
            current_scale.units(),
            Some(record_text(saved_scale.units(), offset.dx(), offset.dy())),
            legacy,
        ) == Some((offset.dx(), offset.dy())),
{
    lemma_record_round_trip(saved_scale.units(), offset.dx(), offset.dy());
}

/// A stale offset is never loaded: where the record that is read was stored
/// at a scale that differs from the current one by more than one hundredth,
/// no offset is loaded, whatever the record's offset is.
pub proof fn lemma_stale_scale_rejected(
    current_scale: Fixed,
    keyed: Option<Seq<char>>,
    legacy: Option<Seq<char>>,
)
    requires
        record_read(keyed, legacy) matches Some((saved, _, _)) && !scale_matches(
            saved,
            current_scale.units(),
        ),
    ensures
        spec_load(current_scale.units(), keyed, legacy) is None,
{
}

/// A record that was saved at a scale that differs from the current one by
/// more than one hundredth is not loaded, whatever its offset is and
/// whatever the legacy file holds.
pub proof fn lemma_stale_save_rejected(
    saved_scale: Fixed,
    offset: Offset,
    current_scale: Fixed,
    legacy: Option<Seq<char>>,
)
    requires
        offset.valid(),
        !scale_matches(saved_scale.units(), current_scale.units()),
    ensures
        spec_load(
            current_scale.units(),
            Some(record_text(saved_scale.units(), offset.dx(), offset.dy())),
            legacy,
        ) is None,
{
    lemma_record_round_trip(saved_scale.units(), offset.dx(), offset.dy());
}

} // verus!
