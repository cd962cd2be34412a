//! The protocol codec: one JSON-tagged-union value per line, tag field
//! `type`. Decoding and encoding are written out here and verified
//! against spec-level parsers, rather than taken on trust.
//!
//! Numbers are fixed-point: up to 13 integer digits and 1 to 3 fraction
//! digits, held internally as millis (`1.5` is `1500`). Strings carry no
//! escapes and only printable characters; object keys may come in any
//! order, unknown keys are ignored, and of a repeated key the first
//! occurrence wins. Anything outside this shape decodes to `None`, which
//! the ingestion path drops silently.

use vstd::prelude::*;
use crate::message::{ClientCommand, PlayerState, ServerMessage, COORD_LIMIT};

verus! {

/// Spec-level image of a decoded command (`Join`'s name as a char sequence).
pub enum CommandView {
    Move { dx: i64, dy: i64 },
    Attack { target: u64 },
    Join { name: Seq<char> },
}

/// The spec-level image of an executable command value.
pub open spec fn command_view(c: ClientCommand) -> CommandView {
    match c {
        ClientCommand::Move { dx, dy } => CommandView::Move { dx, dy },
        ClientCommand::Attack { target } => CommandView::Attack { target },
        ClientCommand::Join { name } => CommandView::Join { name: name@ },
    }
}

/// A JSON scalar of this protocol: a string or a fixed-point number.
pub enum JsonVal {
    S(Seq<char>),
    N(i64),
}

/// Executable counterpart of `JsonVal`.
pub enum JVal {
    S(String),
    N(i64),
}

pub open spec fn jval_view(v: JVal) -> JsonVal {
    match v {
        JVal::S(s) => JsonVal::S(s@),
        JVal::N(n) => JsonVal::N(n),
    }
}

pub open spec fn pairs_view(ps: Seq<(String, JVal)>) -> Seq<(Seq<char>, JsonVal)> {
    Seq::new(ps.len(), |i: int| (ps[i].0@, jval_view(ps[i].1)))
}

// ---------------------------------------------------------------------
// Spec-level grammar
// ---------------------------------------------------------------------

pub open spec fn is_ws(c: char) -> bool {
    c == ' ' || c == '\t' || c == '\r' || c == '\n'
}

pub open spec fn is_digit(c: char) -> bool {
    48 <= (c as u32) <= 57
}

pub open spec fn digit_val(c: char) -> int {
    (c as u32) - 48
}

/// A character allowed inside a string literal: printable, no quote,
/// no backslash.
pub open spec fn string_char_ok(c: char) -> bool {
    c != '"' && c != '\\' && 32 <= (c as u32) <= 126
}

/// First index at or after `i` holding a non-whitespace character.
pub open spec fn skip_ws(s: Seq<char>, i: int) -> int
    recommends
        0 <= i <= s.len(),
    decreases s.len() - i,
{
    if i < s.len() && is_ws(s[i]) {
        skip_ws(s, i + 1)
    } else {
        i
    }
}

/// Index of the closing quote of a string body starting at `i`.
pub open spec fn string_end(s: Seq<char>, i: int) -> Option<int>
    recommends
        0 <= i <= s.len(),
    decreases s.len() - i,
{
    if i >= s.len() {
        None
    } else if s[i] == '"' {
        Some(i)
    } else if string_char_ok(s[i]) {
        string_end(s, i + 1)
    } else {
        None
    }
}

/// A quoted string at `i`: its contents and the index after the close.
pub open spec fn parse_string(s: Seq<char>, i: int) -> Option<(Seq<char>, int)> {
    if 0 <= i < s.len() && s[i] == '"' {
        match string_end(s, i + 1) {
            Some(e) => Some((s.subrange(i + 1, e), e + 1)),
            None => None,
        }
    } else {
        None
    }
}

/// First index at or after `i` holding a non-digit.
pub open spec fn digits_end(s: Seq<char>, i: int) -> int
    recommends
        0 <= i <= s.len(),
    decreases s.len() - i,
{
    if i < s.len() && is_digit(s[i]) {
        digits_end(s, i + 1)
    } else {
        i
    }
}

/// Value of the digit run `s[i..j)`.
pub open spec fn digits_val(s: Seq<char>, i: int, j: int) -> int
    decreases j - i,
{
    if j <= i {
        0
    } else {
        digits_val(s, i, j - 1) * 10 + digit_val(s[j - 1])
    }
}

pub open spec fn pow10(k: nat) -> int
    decreases k,
{
    if k == 0 {
        1
    } else {
        10 * pow10((k - 1) as nat)
    }
}

/// A fixed-point number at `i`: its value in millis and the index after
/// its last digit.
pub open spec fn parse_number(s: Seq<char>, i: int) -> Option<(i64, int)> {
    let neg = 0 <= i < s.len() && s[i] == '-';
    let i1 = if neg { i + 1 } else { i };
    let d1 = digits_end(s, i1);
    if d1 - i1 < 1 || d1 - i1 > 13 {
        None
    } else {
        let units = digits_val(s, i1, d1);
        if d1 < s.len() && s[d1] == '.' {
            let d2 = digits_end(s, d1 + 1);
            let fc = d2 - (d1 + 1);
            if fc < 1 || fc > 3 {
                None
            } else {
                let scale = if fc == 1 { 100int } else if fc == 2 { 10int } else { 1int };
                let mag = units * 1000 + digits_val(s, d1 + 1, d2) * scale;
                Some(((if neg { -mag } else { mag }) as i64, d2))
            }
        } else {
            let mag = units * 1000;
            Some(((if neg { -mag } else { mag }) as i64, d1))
        }
    }
}

/// A scalar value at `i`: a string or a number.
pub open spec fn parse_value(s: Seq<char>, i: int) -> Option<(JsonVal, int)> {
    if 0 <= i < s.len() && s[i] == '"' {
        match parse_string(s, i) {
            Some((t, j)) => Some((JsonVal::S(t), j)),
            None => None,
        }
    } else if 0 <= i < s.len() && (s[i] == '-' || is_digit(s[i])) {
        match parse_number(s, i) {
            Some((v, j)) => Some((JsonVal::N(v), j)),
            None => None,
        }
    } else {
        None
    }
}

/// One `"key" : value` pair at `i`.
pub open spec fn parse_pair(s: Seq<char>, i: int) -> Option<((Seq<char>, JsonVal), int)> {
    match parse_string(s, i) {
        Some((k, j)) => {
            let j2 = skip_ws(s, j);
            if 0 <= j2 < s.len() && s[j2] == ':' {
                let j3 = skip_ws(s, j2 + 1);
                match parse_value(s, j3) {
                    Some((v, j4)) => Some(((k, v), j4)),
                    None => None,
                }
            } else {
                None
            }
        },
        None => None,
    }
}

/// A non-empty pair list followed by `}`; at most `max` pairs.
pub open spec fn parse_pairs(s: Seq<char>, i: int, max: nat) -> Option<(
    Seq<(Seq<char>, JsonVal)>,
    int,
)>
    decreases max,
{
    if max == 0 {
        None
    } else {
        match parse_pair(s, i) {
            None => None,
            Some((p, j)) => {
                let j2 = skip_ws(s, j);
                if 0 <= j2 < s.len() && s[j2] == '}' {
                    Some((seq![p], j2 + 1))
                } else if 0 <= j2 < s.len() && s[j2] == ',' {
                    let j3 = skip_ws(s, j2 + 1);
                    match parse_pairs(s, j3, (max - 1) as nat) {
                        Some((ps, j4)) => Some((seq![p] + ps, j4)),
                        None => None,
                    }
                } else {
                    None
                }
            },
        }
    }
}

/// How many pairs one protocol object may hold.
pub const MAX_PAIRS: usize = 4;

/// An object at `i`: its pairs and the index after the closing brace.
pub open spec fn parse_obj(s: Seq<char>, i: int) -> Option<(Seq<(Seq<char>, JsonVal)>, int)> {
    if 0 <= i < s.len() && s[i] == '{' {
        let j = skip_ws(s, i + 1);
        if 0 <= j < s.len() && s[j] == '}' {
            Some((Seq::empty(), j + 1))
        } else {
            parse_pairs(s, j, MAX_PAIRS as nat)
        }
    } else {
        None
    }
}

/// First value under `key` at or after slot `i`, if any.
pub open spec fn lookup_from(ps: Seq<(Seq<char>, JsonVal)>, key: Seq<char>, i: int) -> Option<
    JsonVal,
>
    decreases ps.len() - i,
{
    if 0 <= i < ps.len() {
        if ps[i].0 == key {
            Some(ps[i].1)
        } else {
            lookup_from(ps, key, i + 1)
        }
    } else {
        None
    }
}

pub open spec fn lookup(ps: Seq<(Seq<char>, JsonVal)>, key: Seq<char>) -> Option<JsonVal> {
    lookup_from(ps, key, 0)
}

/// Map a parsed object onto a command: the `type` tag picks the variant,
/// the variant's fields must be present with the right shapes. An
/// `Attack` target must be a non-negative whole number.
pub open spec fn interpret(ps: Seq<(Seq<char>, JsonVal)>) -> Option<CommandView> {
    match lookup(ps, "type"@) {
        Some(JsonVal::S(t)) => {
            if t == "Join"@ {
                match lookup(ps, "name"@) {
                    Some(JsonVal::S(nm)) => Some(CommandView::Join { name: nm }),
                    _ => None,
                }
            } else if t == "Move"@ {
                match (lookup(ps, "x"@), lookup(ps, "y"@)) {
                    (Some(JsonVal::N(dx)), Some(JsonVal::N(dy))) => Some(
                        CommandView::Move { dx, dy },
                    ),
                    _ => None,
                }
            } else if t == "Attack"@ {
                match lookup(ps, "target"@) {
                    Some(JsonVal::N(m)) => if m >= 0 && m % 1000 == 0 {
                        Some(CommandView::Attack { target: (m / 1000) as u64 })
                    } else {
                        None
                    },
                    _ => None,
                }
            } else {
                None
            }
        },
        _ => None,
    }
}

/// What one whole line decodes to: one object, nothing but whitespace
/// around it, interpreted as a command.
pub open spec fn spec_decode_command(s: Seq<char>) -> Option<CommandView> {
    let i = skip_ws(s, 0);
    match parse_obj(s, i) {
        Some((ps, j)) => if skip_ws(s, j) == s.len() {
            interpret(ps)
        } else {
            None
        },
        None => None,
    }
}

// ---------------------------------------------------------------------
// Executable decoder
// ---------------------------------------------------------------------

fn skip_ws_x(line: &str, n: usize, i: usize) -> (r: usize)
    requires
        n == line@.len(),
        i <= n,
    ensures
        r == skip_ws(line@, i as int),
        i <= r <= n,
{
    let mut j = i;
    loop
        invariant
            i <= j <= n,
            n == line@.len(),
            skip_ws(line@, i as int) == skip_ws(line@, j as int),
        ensures
            i <= j <= n,
            skip_ws(line@, i as int) == j,
        decreases n - j,
    {
        if j < n {
            let c = line.get_char(j);
            if c == ' ' || c == '\t' || c == '\r' || c == '\n' {
                j += 1;
                continue;
            }
        }
        break;
    }
    j
}

#[verifier::loop_isolation(false)]
fn parse_string_x(line: &str, n: usize, i: usize) -> (r: Option<(String, usize)>)
    requires
        n == line@.len(),
        i <= n,
    ensures
        match r {
            Some((t, e)) => parse_string(line@, i as int) == Some((t@, e as int)) && e <= n,
            None => parse_string(line@, i as int) is None,
        },
{
    if i < n && line.get_char(i) == '"' {
        let mut j = i + 1;
        loop
            invariant
                i + 1 <= j <= n,
                string_end(line@, (i + 1) as int) == string_end(line@, j as int),
            decreases n - j,
        {
            if j >= n {
                return None;
            }
            let c = line.get_char(j);
            if c == '"' {
                let t = line.substring_char(i + 1, j).to_owned();
                return Some((t, j + 1));
            }
            if c != '\\' && 32 <= (c as u32) && (c as u32) <= 126 {
                j += 1;
            } else {
                return None;
            }
        }
    } else {
        None
    }
}

proof fn lemma_digits_val_bound(s: Seq<char>, i: int, j: int)
    requires
        0 <= i <= j <= s.len(),
        forall|k: int| i <= k < j ==> is_digit(#[trigger] s[k]),
    ensures
        0 <= digits_val(s, i, j) < pow10((j - i) as nat),
    decreases j - i,
{
    if j <= i {
    } else {
        lemma_digits_val_bound(s, i, j - 1);
    }
}

proof fn lemma_pow10_pos(k: nat)
    ensures
        pow10(k) >= 1,
    decreases k,
{
    if k > 0 {
        lemma_pow10_pos((k - 1) as nat);
    }
}

proof fn lemma_pow10_le(a: nat, b: nat)
    requires
        a <= b,
    ensures
        pow10(a) <= pow10(b),
    decreases b,
{
    if a < b {
        lemma_pow10_le(a, (b - 1) as nat);
        lemma_pow10_pos((b - 1) as nat);
    }
}

/// Scan the digit run starting at `i`.
fn digits_end_x(line: &str, n: usize, i: usize) -> (r: usize)
    requires
        n == line@.len(),
        i <= n,
    ensures
        r == digits_end(line@, i as int),
        i <= r <= n,
        forall|k: int| i <= k < r ==> is_digit(#[trigger] line@[k]),
{
    let mut j = i;
    loop
        invariant
            i <= j <= n,
            n == line@.len(),
            digits_end(line@, i as int) == digits_end(line@, j as int),
            forall|k: int| i <= k < j ==> is_digit(#[trigger] line@[k]),
        ensures
            i <= j <= n,
            digits_end(line@, i as int) == j,
            forall|k: int| i <= k < j ==> is_digit(#[trigger] line@[k]),
        decreases n - j,
    {
        if j < n {
            let c = line.get_char(j);
            if 48 <= (c as u32) && (c as u32) <= 57 {
                j += 1;
                continue;
            }
        }
        break;
    }
    j
}

/// Value of the digit run `line[i..j)`, at most 13 digits.
#[verifier::loop_isolation(false)]
fn digits_val_x(line: &str, n: usize, i: usize, j: usize) -> (r: u64)
    requires
        n == line@.len(),
        i <= j <= n,
        j - i <= 13,
        forall|k: int| i <= k < j ==> is_digit(#[trigger] line@[k]),
    ensures
        r == digits_val(line@, i as int, j as int),
        r < pow10((j - i) as nat),
{
    let mut acc: u64 = 0;
    let mut k = i;
    while k < j
        invariant
            i <= k <= j <= n,
            j - i <= 13,
            n == line@.len(),
            forall|m: int| i <= m < j ==> is_digit(#[trigger] line@[m]),
            acc == digits_val(line@, i as int, k as int),
            acc < pow10((k - i) as nat),
        decreases j - k,
    {
        let c = line.get_char(k);
        let d = (c as u32 - 48) as u64;
        proof {
            lemma_pow10_le((k - i) as nat, 12);
            assert(pow10(12) == 1_000_000_000_000) by {
                reveal_with_fuel(pow10, 13);
            }
        }
        acc = acc * 10 + d;
        k += 1;
    }
    acc
}

fn parse_number_x(line: &str, n: usize, i: usize) -> (r: Option<(i64, usize)>)
    requires
        n == line@.len(),
        i <= n,
    ensures
        match r {
            Some((v, e)) => parse_number(line@, i as int) == Some((v, e as int)) && e <= n,
            None => parse_number(line@, i as int) is None,
        },
{
    let mut neg = false;
    let mut i1 = i;
    if i < n && line.get_char(i) == '-' {
        neg = true;
        i1 = i + 1;
    }
    let d1 = digits_end_x(line, n, i1);
    if d1 - i1 < 1 || d1 - i1 > 13 {
        return None;
    }
    let units = digits_val_x(line, n, i1, d1);
    proof {
        lemma_pow10_le((d1 - i1) as nat, 13);
        assert(pow10(13) == 10_000_000_000_000) by {
            reveal_with_fuel(pow10, 14);
        }
    }
    if d1 < n && line.get_char(d1) == '.' {
        let d2 = digits_end_x(line, n, d1 + 1);
        let fc = d2 - (d1 + 1);
        if fc < 1 || fc > 3 {
            return None;
        }
        let fv = digits_val_x(line, n, d1 + 1, d2);
        proof {
            lemma_pow10_le(fc as nat, 3);
            assert(pow10(3) == 1000) by {
                reveal_with_fuel(pow10, 4);
            }
        }
        let scale: u64 = if fc == 1 {
            100
        } else if fc == 2 {
            10
        } else {
            1
        };
        let mag: u64 = units * 1000 + fv * scale;
        let v: i64 = if neg {
            -(mag as i64)
        } else {
            mag as i64
        };
        Some((v, d2))
    } else {
        let mag: u64 = units * 1000;
        let v: i64 = if neg {
            -(mag as i64)
        } else {
            mag as i64
        };
        Some((v, d1))
    }
}

fn parse_value_x(line: &str, n: usize, i: usize) -> (r: Option<(JVal, usize)>)
    requires
        n == line@.len(),
        i <= n,
    ensures
        match r {
            Some((v, e)) => parse_value(line@, i as int) == Some((jval_view(v), e as int)) && e
                <= n,
            None => parse_value(line@, i as int) is None,
        },
{
    if i < n {
        let c = line.get_char(i);
        if c == '"' {
            match parse_string_x(line, n, i) {
                Some((t, j)) => Some((JVal::S(t), j)),
                None => None,
            }
        } else if c == '-' || (48 <= (c as u32) && (c as u32) <= 57) {
            match parse_number_x(line, n, i) {
                Some((v, j)) => Some((JVal::N(v), j)),
                None => None,
            }
        } else {
            None
        }
    } else {
        None
    }
}

fn parse_pair_x(line: &str, n: usize, i: usize) -> (r: Option<((String, JVal), usize)>)
    requires
        n == line@.len(),
        i <= n,
    ensures
        match r {
            Some((p, e)) => parse_pair(line@, i as int) == Some(((p.0@, jval_view(p.1)), e as int))
                && e <= n,
            None => parse_pair(line@, i as int) is None,
        },
{
    match parse_string_x(line, n, i) {
        None => None,
        Some((k, j)) => {
            let j2 = skip_ws_x(line, n, j);
            if j2 < n && line.get_char(j2) == ':' {
                let j3 = skip_ws_x(line, n, j2 + 1);
                match parse_value_x(line, n, j3) {
                    Some((v, j4)) => Some(((k, v), j4)),
                    None => None,
                }
            } else {
                None
            }
        },
    }
}

fn parse_pairs_x(line: &str, n: usize, i: usize, max: usize) -> (r: Option<(
    Vec<(String, JVal)>,
    usize,
)>)
    requires
        n == line@.len(),
        i <= n,
    ensures
        match r {
            Some((ps, e)) => parse_pairs(line@, i as int, max as nat) matches Some((sps, se))
                && sps == pairs_view(ps@) && se == e as int && e <= n,
            None => parse_pairs(line@, i as int, max as nat) is None,
        },
    decreases max,
{
    if max == 0 {
        return None;
    }
    match parse_pair_x(line, n, i) {
        None => None,
        Some((p, j)) => {
            let j2 = skip_ws_x(line, n, j);
            if j2 < n && line.get_char(j2) == '}' {
                let mut ps: Vec<(String, JVal)> = Vec::new();
                ps.push(p);
                proof {
                    assert(pairs_view(ps@) =~= seq![(p.0@, jval_view(p.1))]);
                }
                Some((ps, j2 + 1))
            } else if j2 < n && line.get_char(j2) == ',' {
                let j3 = skip_ws_x(line, n, j2 + 1);
                match parse_pairs_x(line, n, j3, max - 1) {
                    Some((mut ps, j4)) => {
                        ps.insert(0, p);
                        proof {
                            let rest = parse_pairs(line@, j3 as int, (max - 1) as nat).unwrap().0;
                            assert(pairs_view(ps@) =~= seq![(p.0@, jval_view(p.1))] + rest);
                        }
                        Some((ps, j4))
                    },
                    None => None,
                }
            } else {
                None
            }
        },
    }
}

fn parse_obj_x(line: &str, n: usize, i: usize) -> (r: Option<(Vec<(String, JVal)>, usize)>)
    requires
        n == line@.len(),
        i <= n,
    ensures
        match r {
            Some((ps, e)) => parse_obj(line@, i as int) matches Some((sps, se)) && sps
                == pairs_view(ps@) && se == e as int && e <= n,
            None => parse_obj(line@, i as int) is None,
        },
{
    if i < n && line.get_char(i) == '{' {
        let j = skip_ws_x(line, n, i + 1);
        if j < n && line.get_char(j) == '}' {
            let ps: Vec<(String, JVal)> = Vec::new();
            proof {
                assert(pairs_view(ps@) =~= Seq::<(Seq<char>, JsonVal)>::empty());
            }
            Some((ps, j + 1))
        } else {
            parse_pairs_x(line, n, j, MAX_PAIRS)
        }
    } else {
        None
    }
}

/// First slot at or after `i` whose key is `key`.
fn lookup_x(pairs: &Vec<(String, JVal)>, key: &str, i: usize) -> (r: Option<usize>)
    requires
        i <= pairs@.len(),
    ensures
        match r {
            Some(ix) => i <= ix < pairs@.len() && lookup_from(pairs_view(pairs@), key@, i as int)
                == Some(jval_view(pairs@[ix as int].1)),
            None => lookup_from(pairs_view(pairs@), key@, i as int) is None,
        },
    decreases pairs@.len() - i,
{
    if i >= pairs.len() {
        return None;
    }
    let ks = String::from_str(key);
    if pairs[i].0 == ks {
        Some(i)
    } else {
        lookup_x(pairs, key, i + 1)
    }
}

fn interpret_x(pairs: &Vec<(String, JVal)>) -> (r: Option<ClientCommand>)
    ensures
        match r {
            Some(c) => interpret(pairs_view(pairs@)) == Some(command_view(c)),
            None => interpret(pairs_view(pairs@)) is None,
        },
{
    let it = match lookup_x(pairs, "type", 0) {
        Some(ix) => ix,
        None => {
            return None;
        },
    };
    let t = match &pairs[it].1 {
        JVal::S(t) => t,
        JVal::N(_) => {
            return None;
        },
    };
    if *t == String::from_str("Join") {
        match lookup_x(pairs, "name", 0) {
            Some(ix) => match &pairs[ix].1 {
                JVal::S(nm) => Some(ClientCommand::Join { name: nm.clone() }),
                JVal::N(_) => None,
            },
            None => None,
        }
    } else if *t == String::from_str("Move") {
        let dx = match lookup_x(pairs, "x", 0) {
            Some(ix) => match &pairs[ix].1 {
                JVal::N(v) => *v,
                JVal::S(_) => {
                    return None;
                },
            },
            None => {
                return None;
            },
        };
        let dy = match lookup_x(pairs, "y", 0) {
            Some(ix) => match &pairs[ix].1 {
                JVal::N(v) => *v,
                JVal::S(_) => {
                    return None;
                },
            },
            None => {
                return None;
            },
        };
        Some(ClientCommand::Move { dx, dy })
    } else if *t == String::from_str("Attack") {
        match lookup_x(pairs, "target", 0) {
            Some(ix) => match &pairs[ix].1 {
                JVal::N(m) => {
                    let m = *m;
                    if m >= 0 && m % 1000 == 0 {
                        Some(ClientCommand::Attack { target: (m / 1000) as u64 })
                    } else {
                        None
                    }
                },
                JVal::S(_) => None,
            },
            None => None,
        }
    } else {
        None
    }
}

/// Decode one line into a command; `None` exactly on the lines the
/// spec-level grammar rejects.
pub fn decode_command(line: &str) -> (r: Option<ClientCommand>)
    ensures
        match r {
            Some(c) => spec_decode_command(line@) == Some(command_view(c)),
            None => spec_decode_command(line@) is None,
        },
{
    let n = line.unicode_len();
    let i = skip_ws_x(line, n, 0);
    match parse_obj_x(line, n, i) {
        None => None,
        Some((ps, j)) => {
            let j2 = skip_ws_x(line, n, j);
            if j2 == n {
                interpret_x(&ps)
            } else {
                None
            }
        },
    }
}

// ---------------------------------------------------------------------
// Spec-level encoding
// ---------------------------------------------------------------------

pub open spec fn digit_char(d: int) -> char {
    if d == 0 { '0' }
    else if d == 1 { '1' }
    else if d == 2 { '2' }
    else if d == 3 { '3' }
    else if d == 4 { '4' }
    else if d == 5 { '5' }
    else if d == 6 { '6' }
    else if d == 7 { '7' }
    else if d == 8 { '8' }
    else { '9' }
}

/// Decimal digits of `n`, most significant first.
pub open spec fn dec_digits(n: nat) -> Seq<char>
    decreases n,
{
    if n < 10 {
        seq![digit_char(n as int)]
    } else {
        dec_digits(n / 10).push(digit_char((n % 10) as int))
    }
}

/// A millis value rendered as a signed decimal with three fraction
/// digits: `1500` becomes `1.500`.
pub open spec fn millis_chars(m: i64) -> Seq<char> {
    let mag = if m >= 0 { m as int } else { -(m as int) };
    let sign: Seq<char> = if m < 0 { "-"@ } else { Seq::empty() };
    sign + dec_digits((mag / 1000) as nat) + "."@ + seq![
        digit_char((mag % 1000) / 100),
        digit_char((mag % 100) / 10),
        digit_char(mag % 10),
    ]
}

pub open spec fn spec_encode_player(p: PlayerState) -> Seq<char> {
    "{\"id\":"@ + dec_digits(p.id as nat) + ",\"x\":"@ + millis_chars(p.x) + ",\"y\":"@
        + millis_chars(p.y) + ",\"hp\":"@ + dec_digits(p.hp as nat) + "}"@
}

/// The players array's contents, comma-separated, in roster order.
pub open spec fn players_joined(ps: Seq<PlayerState>) -> Seq<char>
    decreases ps.len(),
{
    if ps.len() == 0 {
        Seq::empty()
    } else if ps.len() == 1 {
        spec_encode_player(ps[0])
    } else {
        players_joined(ps.drop_last()) + ","@ + spec_encode_player(ps.last())
    }
}

/// One whole `WorldSnapshot` line, newline-terminated.
pub open spec fn spec_encode_snapshot(ps: Seq<PlayerState>) -> Seq<char> {
    "{\"type\":\"WorldSnapshot\",\"players\":["@ + players_joined(ps) + "]}\n"@
}

// ---------------------------------------------------------------------
// Executable encoder
// ---------------------------------------------------------------------

fn digit_str(d: u64) -> (r: &'static str)
    requires
        d < 10,
    ensures
        r@ == seq![digit_char(d as int)],
{
    proof {
        reveal_strlit("0");
        reveal_strlit("1");
        reveal_strlit("2");
        reveal_strlit("3");
        reveal_strlit("4");
        reveal_strlit("5");
        reveal_strlit("6");
        reveal_strlit("7");
        reveal_strlit("8");
        reveal_strlit("9");
    }
    let r = if d == 0 { "0" }
    else if d == 1 { "1" }
    else if d == 2 { "2" }
    else if d == 3 { "3" }
    else if d == 4 { "4" }
    else if d == 5 { "5" }
    else if d == 6 { "6" }
    else if d == 7 { "7" }
    else if d == 8 { "8" }
    else { "9" };
    proof {
        assert(r@ =~= seq![digit_char(d as int)]);
    }
    r
}

fn append_u64(out: &mut String, n: u64)
    ensures
        final(out)@ == old(out)@ + dec_digits(n as nat),
    decreases n,
{
    if n >= 10 {
        append_u64(out, n / 10);
        out.append(digit_str(n % 10));
        proof {
            assert(final(out)@ =~= old(out)@ + dec_digits(n as nat));
        }
    } else {
        out.append(digit_str(n));
        proof {
            assert(final(out)@ =~= old(out)@ + dec_digits(n as nat));
        }
    }
}

fn append_millis(out: &mut String, m: i64)
    requires
        -COORD_LIMIT <= m <= COORD_LIMIT,
    ensures
        final(out)@ == old(out)@ + millis_chars(m),
{
    if m < 0 {
        out.append("-");
    }
    let mag: u64 = if m < 0 {
        (-m) as u64
    } else {
        m as u64
    };
    append_u64(out, mag / 1000);
    out.append(".");
    out.append(digit_str((mag % 1000) / 100));
    out.append(digit_str((mag % 100) / 10));
    out.append(digit_str(mag % 10));
    proof {
        assert(final(out)@ =~= old(out)@ + millis_chars(m));
    }
}

fn append_player(out: &mut String, p: &PlayerState)
    requires
        p.wf(),
    ensures
        final(out)@ == old(out)@ + spec_encode_player(*p),
{
    out.append("{\"id\":");
    append_u64(out, p.id);
    out.append(",\"x\":");
    append_millis(out, p.x);
    out.append(",\"y\":");
    append_millis(out, p.y);
    out.append(",\"hp\":");
    append_u64(out, p.hp as u64);
    out.append("}");
    proof {
        assert(final(out)@ =~= old(out)@ + spec_encode_player(*p));
    }
}

/// Serialize one snapshot as a single newline-terminated line.
#[verifier::loop_isolation(false)]
pub fn encode_snapshot(players: &Vec<PlayerState>) -> (r: String)
    requires
        forall|i: int| 0 <= i < players@.len() ==> (#[trigger] players@[i]).wf(),
    ensures
        r@ == spec_encode_snapshot(players@),
{
    let mut out = String::new();
    out.append("{\"type\":\"WorldSnapshot\",\"players\":[");
    let mut i: usize = 0;
    while i < players.len()
        invariant
            i <= players@.len(),
            forall|k: int| 0 <= k < players@.len() ==> (#[trigger] players@[k]).wf(),
            out@ == "{\"type\":\"WorldSnapshot\",\"players\":["@ + players_joined(
                players@.subrange(0, i as int)),
        decreases players@.len() - i,
    {
        if i > 0 {
            out.append(",");
        }
        append_player(&mut out, &players[i]);
        proof {
            let pre = players@.subrange(0, i as int);
            let cur = players@.subrange(0, i + 1 as int);
            assert(cur.drop_last() =~= pre);
            assert(cur.last() == players@[i as int]);
            if i == 0 {
                assert(players_joined(cur) == spec_encode_player(players@[0]));
                assert(out@ =~= "{\"type\":\"WorldSnapshot\",\"players\":["@ + players_joined(
                    cur));
            } else {
                assert(players_joined(cur) == players_joined(pre) + ","@ + spec_encode_player(
                    players@[i as int]));
                assert(out@ =~= "{\"type\":\"WorldSnapshot\",\"players\":["@ + players_joined(
                    cur));
            }
        }
        i += 1;
    }
    out.append("]}\n");
    proof {
        assert(players@.subrange(0, players@.len() as int) =~= players@);
        assert(out@ =~= spec_encode_snapshot(players@));
    }
    out
}


/// Text that can stand inside a string literal of this protocol.
pub open spec fn text_ok(s: Seq<char>) -> bool {
    forall|i: int| 0 <= i < s.len() ==> string_char_ok(#[trigger] s[i])
}

/// One whole server-to-client line for any message variant.
pub open spec fn spec_encode_message(m: ServerMessage) -> Seq<char> {
    match m {
        ServerMessage::Welcome { msg } => "{\"type\":\"Welcome\",\"msg\":\""@ + msg@ + "\"}\n"@,
        ServerMessage::PlayerUpdate { id, x, y, hp } => "{\"type\":\"PlayerUpdate\",\"id\":"@
            + dec_digits(id as nat) + ",\"x\":"@ + millis_chars(x) + ",\"y\":"@ + millis_chars(y)
            + ",\"hp\":"@ + dec_digits(hp as nat) + "}\n"@,
        ServerMessage::WorldSnapshot { players } => spec_encode_snapshot(players@),
        ServerMessage::Error { msg } => "{\"type\":\"Error\",\"msg\":\""@ + msg@ + "\"}\n"@,
    }
}

/// Serialize one server message as a single newline-terminated line.
/// Message text must fit the protocol's string subset, and positions
/// must lie within the world's bounds.
pub fn encode_message(m: &ServerMessage) -> (r: String)
    requires
        match *m {
            ServerMessage::Welcome { msg } => text_ok(msg@),
            ServerMessage::PlayerUpdate { id: _, x, y, hp: _ } => -COORD_LIMIT <= x <= COORD_LIMIT
                && -COORD_LIMIT <= y <= COORD_LIMIT,
            ServerMessage::WorldSnapshot { players } => forall|i: int|
                0 <= i < players@.len() ==> (#[trigger] players@[i]).wf(),
            ServerMessage::Error { msg } => text_ok(msg@),
        },
    ensures
        r@ == spec_encode_message(*m),
{
    match m {
        ServerMessage::Welcome { msg } => {
            let mut out = String::new();
            out.append("{\"type\":\"Welcome\",\"msg\":\"");
            out.append(msg.as_str());
            out.append("\"}\n");
            proof {
                assert(out@ =~= spec_encode_message(*m));
            }
            out
        },
        ServerMessage::PlayerUpdate { id, x, y, hp } => {
            let mut out = String::new();
            out.append("{\"type\":\"PlayerUpdate\",\"id\":");
            append_u64(&mut out, *id);
            out.append(",\"x\":");
            append_millis(&mut out, *x);
            out.append(",\"y\":");
            append_millis(&mut out, *y);
            out.append(",\"hp\":");
            append_u64(&mut out, *hp as u64);
            out.append("}\n");
            proof {
                assert(out@ =~= spec_encode_message(*m));
            }
            out
        },
        ServerMessage::WorldSnapshot { players } => encode_snapshot(players),
        ServerMessage::Error { msg } => {
            let mut out = String::new();
            out.append("{\"type\":\"Error\",\"msg\":\"");
            out.append(msg.as_str());
            out.append("\"}\n");
            proof {
                assert(out@ =~= spec_encode_message(*m));
            }
            out
        },
    }
}

} // verus!
