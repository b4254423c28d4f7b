//! The typed command language of the terminal interface: words separated by
//! white space, a keyword in any letter case, and numeric arguments.
use vstd::prelude::*;
use vstd::string::*;
use crate::strings::{is_white_space, white_space};

verus! {

/// Length of the run of characters before the first white space.
pub open spec fn word_len(s: Seq<char>) -> nat
    decreases s.len(),
{
    if s.len() == 0 || is_white_space(s[0]) {
        0
    } else {
        1 + word_len(s.drop_first())
    }
}

/// The leading run of a text is no longer than the text, and not empty when
/// the text starts with a character that is not white space.
pub proof fn lemma_word_len_bounds(s: Seq<char>)
    ensures
        word_len(s) <= s.len(),
        s.len() > 0 && !is_white_space(s[0]) ==> word_len(s) >= 1,
    decreases s.len(),
{
    if s.len() > 0 && !is_white_space(s[0]) {
        lemma_word_len_bounds(s.drop_first());
    }
}

/// The words of a text: its maximal runs of characters that are not white space.
pub open spec fn words(s: Seq<char>) -> Seq<Seq<char>>
    decreases s.len(),
{
    if s.len() == 0 {
        Seq::empty()
    } else if is_white_space(s[0]) {
        words(s.drop_first())
    } else {
        proof {
            lemma_word_len_bounds(s);
        }
        seq![s.take(word_len(s) as int)] + words(s.skip(word_len(s) as int))
    }
}

/// The run before the first white space has length `k` when the first `k`
/// characters are not white space and the next one is (or the text ends).
proof fn lemma_word_len_is(s: Seq<char>, k: int)
    requires
        0 <= k <= s.len(),
        forall|m: int| 0 <= m < k ==> !is_white_space(#[trigger] s[m]),
        k == s.len() || is_white_space(s[k]),
    ensures
        word_len(s) == k,
    decreases k,
{
    if k > 0 {
        let t = s.drop_first();
        assert forall|m: int| 0 <= m < k - 1 implies !is_white_space(#[trigger] t[m]) by {
            assert(t[m] == s[m + 1]);
        }
        if k < s.len() {
            assert(t[k - 1] == s[k]);
        }
        lemma_word_len_is(t, k - 1);
    }
}

/// The texts of a list of strings.
pub open spec fn texts(v: Seq<String>) -> Seq<Seq<char>> {
    v.map_values(|w: String| w@)
}

/// Splits a text into its words.
pub fn split_words(s: &str) -> (out: Vec<String>)
    ensures
        texts(out@) == words(s@),
{
    let n = s.unicode_len();
    let mut out: Vec<String> = Vec::new();
    let mut i: usize = 0;
    assert(s@.skip(0) =~= s@);
    assert(texts(out@) + words(s@.skip(0)) =~= words(s@));
    while i < n
        invariant
            n == s@.len(),
            i <= n,
            words(s@) == texts(out@) + words(s@.skip(i as int)),
        decreases n - i,
    {
        if white_space(s.get_char(i)) {
            assert(s@.skip(i as int).drop_first() =~= s@.skip(i as int + 1));
            i = i + 1;
        } else {
            let mut j: usize = i + 1;
            while j < n && !white_space(s.get_char(j))
                invariant
                    n == s@.len(),
                    i < j <= n,
                    forall|m: int| i <= m < j ==> !is_white_space(#[trigger] s@[m]),
                decreases n - j,
            {
                j = j + 1;
            }
            let word = String::from_str(s.substring_char(i, j));
            let ghost rest = s@.skip(i as int);
            proof {
                assert forall|m: int| 0 <= m < j - i implies !is_white_space(#[trigger] rest[m]) by {
                    assert(rest[m] == s@[i + m]);
                }
                if j < n {
                    assert(rest[j - i] == s@[j as int]);
                }
                lemma_word_len_is(rest, j - i);
                assert(rest.take(j - i) =~= s@.subrange(i as int, j as int));
                assert(rest.skip(j - i) =~= s@.skip(j as int));
            }
            let ghost before = out@;
            out.push(word);
            assert(texts(out@) =~= texts(before).push(word@));
            assert(texts(out@) + words(s@.skip(j as int)) =~= texts(before) + (seq![word@] + words(
                s@.skip(j as int),
            )));
            i = j;
        }
    }
    assert(s@.skip(n as int) =~= Seq::<char>::empty());
    assert(texts(out@) + words(s@.skip(n as int)) =~= texts(out@));
    out
}

/// A character with ASCII capitals made small.
pub open spec fn lower_char(c: char) -> char {
    if 'A' <= c && c <= 'Z' {
        ((c as u8) + 32) as u8 as char
    } else {
        c
    }
}

/// A text with ASCII capitals made small.
pub open spec fn lower(s: Seq<char>) -> Seq<char> {
    s.map_values(|c: char| lower_char(c))
}

/// Whether a word, with its ASCII capitals made small, is `keyword`.
pub fn is_keyword(word: &str, keyword: &str) -> (r: bool)
    ensures
        r == (lower(word@) == keyword@),
{
    let n = word.unicode_len();
    if n != keyword.unicode_len() {
        proof {
            if lower(word@) == keyword@ {
                assert(lower(word@).len() == word@.len());
            }
        }
        return false;
    }
    let mut i: usize = 0;
    while i < n
        invariant
            n == word@.len(),
            n == keyword@.len(),
            i <= n,
            forall|k: int| 0 <= k < i ==> lower_char(#[trigger] word@[k]) == keyword@[k],
        decreases n - i,
    {
        let c = word.get_char(i);
        let low = if 'A' <= c && c <= 'Z' {
            ((c as u8) + 32) as char
        } else {
            c
        };
        if low != keyword.get_char(i) {
            proof {
                if lower(word@) == keyword@ {
                    assert(lower(word@)[i as int] == keyword@[i as int]);
                }
            }
            return false;
        }
        i = i + 1;
    }
    assert(lower(word@) =~= keyword@);
    true
}

/// Value of a decimal digit character.
pub open spec fn digit_value(c: char) -> int {
    c as int - '0' as int
}

/// Whether every character is a decimal digit.
pub open spec fn all_digits(s: Seq<char>) -> bool {
    forall|i: int| 0 <= i < s.len() ==> '0' <= #[trigger] s[i] && s[i] <= '9'
}

/// The number written by a run of decimal digits.
pub open spec fn digits_value(s: Seq<char>) -> int
    decreases s.len(),
{
    if s.len() == 0 {
        0
    } else {
        digits_value(s.drop_last()) * 10 + digit_value(s.last())
    }
}

/// The number a text writes as an optional sign and at least one decimal digit.
pub open spec fn written_number(s: Seq<char>, signed: bool) -> Option<int> {
    let negative = signed && s.len() > 0 && s[0] == '-';
    let body = if s.len() > 0 && (s[0] == '+' || negative) {
        s.drop_first()
    } else {
        s
    };
    if body.len() > 0 && all_digits(body) {
        Some(if negative {
            -digits_value(body)
        } else {
            digits_value(body)
        })
    } else {
        None
    }
}

proof fn lemma_digits_grow(s: Seq<char>)
    requires
        all_digits(s),
    ensures
        digits_value(s) >= 0,
    decreases s.len(),
{
    if s.len() > 0 {
        lemma_digits_grow(s.drop_last());
    }
}

/// Reads the digits of `s` from `start`, giving `None` once the value passes `limit`.
fn digits_upto(s: &str, start: usize, limit: u64) -> (value: Option<u64>)
    requires
        start <= s@.len(),
        all_digits(s@.skip(start as int)),
        9 <= limit <= 0xffff_ffff_ffff,
    ensures
        match value {
            Some(v) => v == digits_value(s@.skip(start as int)) && v <= limit,
            None => digits_value(s@.skip(start as int)) > limit,
        },
{
    let n = s.unicode_len();
    let mut v: u64 = 0;
    let mut i: usize = start;
    while i < n
        invariant
            n == s@.len(),
            start <= i <= n,
            all_digits(s@.skip(start as int)),
            9 <= limit <= 0xffff_ffff_ffff,
            v <= limit,
            v == digits_value(s@.subrange(start as int, i as int)),
        decreases n - i,
    {
        let c = s.get_char(i);
        assert(s@.skip(start as int)[i - start] == c);
        let d = (c as u32 - '0' as u32) as u64;
        let ghost next = s@.subrange(start as int, i as int + 1);
        assert(next.drop_last() =~= s@.subrange(start as int, i as int));
        if v > (limit - d) / 10 {
            proof {
                lemma_digits_tail_grow(s@.skip(start as int), next.len() as int);
                assert(s@.skip(start as int).take(next.len() as int) =~= next);
            }
            return None;
        }
        v = v * 10 + d;
        i = i + 1;
    }
    assert(s@.subrange(start as int, n as int) =~= s@.skip(start as int));
    Some(v)
}

/// The number written by all the digits is at least that of any leading part.
proof fn lemma_digits_tail_grow(s: Seq<char>, k: int)
    requires
        all_digits(s),
        0 <= k <= s.len(),
    ensures
        digits_value(s) >= digits_value(s.take(k)),
    decreases s.len() - k,
{
    if k == s.len() {
        assert(s.take(k) =~= s);
    } else {
        lemma_digits_tail_grow(s, k + 1);
        let t = s.take(k + 1);
        assert(t.drop_last() =~= s.take(k));
        assert(all_digits(s.take(k))) by {
            assert forall|i: int| 0 <= i < s.take(k).len() implies '0' <= #[trigger] s.take(k)[i] && s.take(k)[i] <= '9' by {
                assert(s.take(k)[i] == s[i]);
            }
        }
        assert(t.last() == s[k]);
        assert('0' <= s[k] && s[k] <= '9');
        lemma_digits_grow(s.take(k));
        assert(digits_value(t) >= digits_value(s.take(k))) by (nonlinear_arith)
            requires
                digits_value(t) == digits_value(s.take(k)) * 10 + digit_value(t.last()),
                digit_value(t.last()) >= 0,
                digits_value(s.take(k)) >= 0,
        ;
    }
}

/// Whether the characters of `s` from `start` on are all decimal digits.
fn digits_from(s: &str, start: usize) -> (r: bool)
    requires
        start <= s@.len(),
    ensures
        r == all_digits(s@.skip(start as int)),
{
    let n = s.unicode_len();
    let mut i: usize = start;
    while i < n
        invariant
            n == s@.len(),
            start <= i <= n,
            forall|k: int| start <= k < i ==> '0' <= #[trigger] s@[k] && s@[k] <= '9',
        decreases n - i,
    {
        let c = s.get_char(i);
        if !('0' <= c && c <= '9') {
            assert(s@.skip(start as int)[i - start] == c);
            return false;
        }
        i = i + 1;
    }
    assert forall|k: int| 0 <= k < s@.skip(start as int).len() implies '0' <= #[trigger] s@.skip(start as int)[k]
        && s@.skip(start as int)[k] <= '9' by {
        assert(s@.skip(start as int)[k] == s@[start + k]);
    }
    true
}

/// Reads a non-negative whole number, as Rust's `usize` parsing does: an
/// optional `+` and at least one digit, with no other characters.
pub fn parse_usize(word: &str) -> (value: Option<usize>)
    ensures
        value == match written_number(word@, false) {
            Some(v) => if v <= usize::MAX {
                Some(v as usize)
            } else {
                None
            },
            None => None,
        },
{
    let n = word.unicode_len();
    let start: usize = if n > 0 && word.get_char(0) == '+' {
        1
    } else {
        0
    };
    assert(start == 1 ==> word@.skip(1) =~= word@.drop_first());
    assert(start == 0 ==> word@.skip(0) =~= word@);
    if start >= n || !digits_from(word, start) {
        return None;
    }
    digits_as_usize(word, start)
}

/// Reads digits into a `usize`, refusing a value that does not fit.
fn digits_as_usize(word: &str, start: usize) -> (value: Option<usize>)
    requires
        start <= word@.len(),
        all_digits(word@.skip(start as int)),
    ensures
        value == if digits_value(word@.skip(start as int)) <= usize::MAX {
            Some(digits_value(word@.skip(start as int)) as usize)
        } else {
            None
        },
{
    let n = word.unicode_len();
    let mut v: usize = 0;
    let mut i: usize = start;
    while i < n
        invariant
            n == word@.len(),
            start <= i <= n,
            all_digits(word@.skip(start as int)),
            v == digits_value(word@.subrange(start as int, i as int)),
        decreases n - i,
    {
        let c = word.get_char(i);
        assert(word@.skip(start as int)[i - start] == c);
        let d = (c as u32 - '0' as u32) as usize;
        let ghost next = word@.subrange(start as int, i as int + 1);
        assert(next.drop_last() =~= word@.subrange(start as int, i as int));
        let grown = match v.checked_mul(10) {
            Some(x) => x.checked_add(d),
            None => None,
        };
        match grown {
            Some(x) => {
                v = x;
            },
            None => {
                proof {
                    lemma_digits_tail_grow(word@.skip(start as int), next.len() as int);
                    assert(word@.skip(start as int).take(next.len() as int) =~= next);
                }
                return None;
            },
        }
        i = i + 1;
    }
    assert(word@.subrange(start as int, n as int) =~= word@.skip(start as int));
    Some(v)
}

/// Reads a whole number that fits an `i32`, as Rust's `i32` parsing does: an
/// optional `+` or `-` and at least one digit, with no other characters.
pub fn parse_i32(word: &str) -> (value: Option<i32>)
    ensures
        value == match written_number(word@, true) {
            Some(v) => if i32::MIN <= v <= i32::MAX {
                Some(v as i32)
            } else {
                None
            },
            None => None,
        },
{
    let n = word.unicode_len();
    let negative = n > 0 && word.get_char(0) == '-';
    let start: usize = if n > 0 && (word.get_char(0) == '+' || negative) {
        1
    } else {
        0
    };
    assert(start == 1 ==> word@.skip(1) =~= word@.drop_first());
    assert(start == 0 ==> word@.skip(0) =~= word@);
    if start >= n || !digits_from(word, start) {
        return None;
    }
    let limit: u64 = if negative {
        2_147_483_648
    } else {
        2_147_483_647
    };
    match digits_upto(word, start, limit) {
        Some(v) => {
            if negative {
                if v == 2_147_483_648 {
                    Some(i32::MIN)
                } else {
                    Some(-(v as i32))
                }
            } else {
                Some(v as i32)
            }
        },
        None => None,
    }
}

/// What a typed command asks for.
#[derive(Debug, Clone, PartialEq, Eq)]
pub enum Command {
    Nothing,
    Roll,
    Buy,
    PassOrDecline,
    Bid(Option<i32>),
    End,
    PayCooldown,
    UseBypass,
    Tensor(Option<usize>),
    Untensor(Option<usize>),
    Archive(Option<usize>),
    Restore(Option<usize>),
    Save(String),
    Load(Option<String>),
    Status,
    Help,
    Quit,
    Unknown(String),
}

/// The `usize` a word writes, if it writes one that fits.
pub open spec fn usize_of(word: Seq<char>) -> Option<usize> {
    match written_number(word, false) {
        Some(v) => if v <= usize::MAX {
            Some(v as usize)
        } else {
            None
        },
        None => None,
    }
}

/// The `i32` a word writes, if it writes one that fits.
pub open spec fn i32_of(word: Seq<char>) -> Option<i32> {
    match written_number(word, true) {
        Some(v) => if i32::MIN <= v <= i32::MAX {
            Some(v as i32)
        } else {
            None
        },
        None => None,
    }
}

/// Words joined by single spaces.
pub open spec fn joined(ws: Seq<Seq<char>>) -> Seq<char>
    decreases ws.len(),
{
    if ws.len() == 0 {
        Seq::empty()
    } else if ws.len() == 1 {
        ws[0]
    } else {
        joined(ws.drop_last()) + " "@ + ws.last()
    }
}

/// The number argument of a command: its second word, read as a tile.
pub open spec fn tile_argument(ws: Seq<Seq<char>>) -> Option<usize> {
    if ws.len() > 1 {
        usize_of(ws[1])
    } else {
        None
    }
}

/// Whether `c` is what the typed text `input` asks for: the first word, in
/// any letter case, names the command, and the words after it are its arguments.
pub open spec fn parsed_command(input: Seq<char>, c: Command) -> bool {
    let ws = words(input);
    if ws.len() == 0 {
        c == Command::Nothing
    } else {
        let k = lower(ws[0]);
        if k == "roll"@ {
            c == Command::Roll
        } else if k == "buy"@ {
            c == Command::Buy
        } else if k == "auction"@ || k == "pass"@ {
            c == Command::PassOrDecline
        } else if k == "bid"@ {
            c == Command::Bid(if ws.len() > 1 { i32_of(ws[1]) } else { None })
        } else if k == "end"@ {
            c == Command::End
        } else if k == "paycooldown"@ {
            c == Command::PayCooldown
        } else if k == "usebypass"@ {
            c == Command::UseBypass
        } else if k == "tensor"@ {
            c == Command::Tensor(tile_argument(ws))
        } else if k == "untensor"@ {
            c == Command::Untensor(tile_argument(ws))
        } else if k == "archive"@ {
            c == Command::Archive(tile_argument(ws))
        } else if k == "restore"@ {
            c == Command::Restore(tile_argument(ws))
        } else if k == "save"@ {
            c matches Command::Save(name) && name@ == joined(ws.skip(1))
        } else if k == "load"@ {
            c matches Command::Load(id) && if ws.len() > 1 {
                id matches Some(x) && x@ == ws[1]
            } else {
                id is None
            }
        } else if k == "status"@ {
            c == Command::Status
        } else if k == "help"@ {
            c == Command::Help
        } else if k == "quit"@ {
            c == Command::Quit
        } else {
            c matches Command::Unknown(x) && x@ == ws[0]
        }
    }
}

/// The words from `from` on, joined by single spaces.
fn join_from(ws: &Vec<String>, from: usize) -> (text: String)
    requires
        from <= ws@.len(),
    ensures
        text@ == joined(texts(ws@).skip(from as int)),
{
    let mut text = String::new();
    let mut i: usize = from;
    assert(texts(ws@).skip(from as int).take(0) =~= Seq::<Seq<char>>::empty());
    while i < ws.len()
        invariant
            from <= i <= ws@.len(),
            text@ == joined(texts(ws@).skip(from as int).take(i - from)),
        decreases ws@.len() - i,
    {
        let ghost all = texts(ws@).skip(from as int);
        let ghost next = all.take(i - from + 1);
        assert(next.drop_last() =~= all.take(i - from));
        assert(next.last() == ws@[i as int]@);
        if i > from {
            text.append(" ");
        }
        text.append(ws[i].as_str());
        proof {
            if i == from {
                assert(text@ =~= joined(next));
            } else {
                assert(text@ =~= joined(next));
            }
        }
        i = i + 1;
    }
    assert(texts(ws@).skip(from as int).take(ws@.len() - from) =~= texts(ws@).skip(from as int));
    text
}

/// Reads a typed command.
pub fn parse_command(input: &str) -> (command: Command)
    ensures
        parsed_command(input@, command),
{
    let ws = split_words(input);
    if ws.len() == 0 {
        return Command::Nothing;
    }
    assert(texts(ws@)[0] == ws@[0]@);
    let first = ws[0].as_str();
    let tile = if ws.len() > 1 {
        assert(texts(ws@)[1] == ws@[1]@);
        parse_usize(ws[1].as_str())
    } else {
        None
    };
    if is_keyword(first, "roll") {
        Command::Roll
    } else if is_keyword(first, "buy") {
        Command::Buy
    } else if is_keyword(first, "auction") || is_keyword(first, "pass") {
        Command::PassOrDecline
    } else if is_keyword(first, "bid") {
        if ws.len() > 1 {
            Command::Bid(parse_i32(ws[1].as_str()))
        } else {
            Command::Bid(None)
        }
    } else if is_keyword(first, "end") {
        Command::End
    } else if is_keyword(first, "paycooldown") {
        Command::PayCooldown
    } else if is_keyword(first, "usebypass") {
        Command::UseBypass
    } else if is_keyword(first, "tensor") {
        Command::Tensor(tile)
    } else if is_keyword(first, "untensor") {
        Command::Untensor(tile)
    } else if is_keyword(first, "archive") {
        Command::Archive(tile)
    } else if is_keyword(first, "restore") {
        Command::Restore(tile)
    } else if is_keyword(first, "save") {
        Command::Save(join_from(&ws, 1))
    } else if is_keyword(first, "load") {
        if ws.len() > 1 {
            Command::Load(Some(ws[1].clone()))
        } else {
            Command::Load(None)
        }
    } else if is_keyword(first, "status") {
        Command::Status
    } else if is_keyword(first, "help") {
        Command::Help
    } else if is_keyword(first, "quit") {
        Command::Quit
    } else {
        Command::Unknown(ws[0].clone())
    }
}

} // verus!
