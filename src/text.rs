//! Whitespace tokenizing and decimal numbers, the lexical layer of the
//! engine protocol.

use vstd::prelude::*;
use vstd::string::*;

verus! {

/// The separators between protocol tokens (ASCII white space).
pub open spec fn is_space(c: char) -> bool {
    c == ' ' || c == '\t' || c == '\n' || c == '\r' || c == '\x0C'
}

/// Splits `s` into its maximal runs of non-space characters, `cur` being
/// the part of a word already read.
pub open spec fn words_acc(s: Seq<char>, cur: Seq<char>) -> Seq<Seq<char>>
    decreases s.len(),
{
    if s.len() == 0 {
        if cur.len() == 0 {
            seq![]
        } else {
            seq![cur]
        }
    } else if is_space(s[0]) {
        if cur.len() == 0 {
            words_acc(s.skip(1), cur)
        } else {
            seq![cur] + words_acc(s.skip(1), seq![])
        }
    } else {
        words_acc(s.skip(1), cur.push(s[0]))
    }
}

/// The whitespace-separated words of `s`, in order.
pub open spec fn split_words(s: Seq<char>) -> Seq<Seq<char>> {
    words_acc(s, seq![])
}

/// The character views of a sequence of strings.
pub open spec fn views(v: Seq<String>) -> Seq<Seq<char>> {
    v.map_values(|w: String| w@)
}

/// Splits a line into its whitespace-separated words.
pub fn split_tokens(line: &str) -> (r: Vec<String>)
    ensures
        views(r@) == split_words(line@),
{
    let n = line.unicode_len();
    let mut out: Vec<String> = Vec::new();
    let mut start: usize = 0;
    let mut i: usize = 0;
    proof {
        assert(line@.skip(0) =~= line@);
        assert(line@.subrange(0, 0) =~= Seq::<char>::empty());
        assert(views(out@) =~= Seq::<Seq<char>>::empty());
        assert(views(out@) + split_words(line@) =~= split_words(line@));
    }
    while i < n
        invariant
            n == line@.len(),
            start <= i <= n,
            forall|k: int| start <= k < i ==> !is_space(#[trigger] line@[k]),
            views(out@) + words_acc(line@.skip(i as int), line@.subrange(start as int, i as int))
                == split_words(line@),
        decreases n - i,
    {
        let c = line.get_char(i);
        let ghost rest = line@.skip(i as int);
        let ghost cur = line@.subrange(start as int, i as int);
        assert(rest[0] == c);
        assert(rest.skip(1) =~= line@.skip(i + 1));
        if is_space_char(c) {
            if start < i {
                let w = line.substring_char(start, i).to_owned();
                proof {
                    assert(views(out@.push(w)) =~= views(out@).push(cur));
                    assert(line@.subrange((i + 1) as int, (i + 1) as int) =~= Seq::<char>::empty());
                }
                out.push(w);
            } else {
                assert(line@.subrange((i + 1) as int, (i + 1) as int) =~= cur);
            }
            start = i + 1;
        } else {
            assert(cur.push(c) =~= line@.subrange(start as int, i + 1));
        }
        i = i + 1;
    }
    let ghost cur = line@.subrange(start as int, n as int);
    assert(line@.skip(n as int) =~= Seq::<char>::empty());
    if start < n {
        let w = line.substring_char(start, n).to_owned();
        proof {
            assert(views(out@.push(w)) =~= views(out@).push(cur));
            assert(views(out@) + seq![cur] =~= views(out@).push(cur));
        }
        out.push(w);
    } else {
        assert(views(out@) + Seq::<Seq<char>>::empty() =~= views(out@));
    }
    out
}

/// Whether `c` separates protocol tokens.
pub fn is_space_char(c: char) -> (r: bool)
    ensures
        r == is_space(c),
{
    c == ' ' || c == '\t' || c == '\n' || c == '\r' || c == '\x0C'
}


pub open spec fn is_digit(c: char) -> bool {
    '0' <= c && c <= '9'
}

pub open spec fn digit_value(c: char) -> nat {
    (c as u32 - '0' as u32) as nat
}

/// The value of a run of decimal digits, most significant first.
pub open spec fn digits_value(s: Seq<char>) -> nat
    decreases s.len(),
{
    if s.len() == 0 {
        0
    } else {
        digits_value(s.drop_last()) * 10 + digit_value(s.last())
    }
}

pub open spec fn all_digits(s: Seq<char>) -> bool {
    s.len() > 0 && forall|i: int| 0 <= i < s.len() ==> is_digit(#[trigger] s[i])
}

/// The number that unsigned decimal text denotes: an optional `+`, then
/// one or more digits.
pub open spec fn unsigned_text(s: Seq<char>) -> Option<nat> {
    let d = if s.len() > 0 && s[0] == '+' { s.skip(1) } else { s };
    if all_digits(d) { Some(digits_value(d)) } else { None }
}

/// The number that signed decimal text denotes: an optional `+` or `-`,
/// then one or more digits.
pub open spec fn signed_text(s: Seq<char>) -> Option<int> {
    if s.len() > 0 && s[0] == '-' {
        if all_digits(s.skip(1)) { Some(-digits_value(s.skip(1))) } else { None }
    } else {
        match unsigned_text(s) {
            Some(v) => Some(v as int),
            None => None,
        }
    }
}

proof fn lemma_prefix_value_le(s: Seq<char>, j: int)
    requires
        0 <= j <= s.len(),
    ensures
        digits_value(s.take(j)) <= digits_value(s),
    decreases s.len(),
{
    if j < s.len() {
        assert(s.drop_last().take(j) =~= s.take(j));
        lemma_prefix_value_le(s.drop_last(), j);
    } else {
        assert(s.take(j) =~= s);
    }
}

/// The value of the digits of `s` from `from` on, where they are all
/// digits and the value fits in `u64`.
fn digits_u64(s: &str, from: usize) -> (r: Option<u64>)
    requires
        from <= s@.len(),
    ensures
        r == (if all_digits(s@.skip(from as int)) && digits_value(s@.skip(from as int)) <= u64::MAX {
            Some(digits_value(s@.skip(from as int)) as u64)
        } else {
            None::<u64>
        }),
{
    let n = s.unicode_len();
    let ghost d = s@.skip(from as int);
    if from == n {
        return None;
    }
    let mut i: usize = from;
    while i < n
        invariant
            n == s@.len(),
            from <= i <= n,
            d == s@.skip(from as int),
            forall|k: int| 0 <= k < i - from ==> is_digit(#[trigger] d[k]),
        decreases n - i,
    {
        let c = s.get_char(i);
        if !('0' <= c && c <= '9') {
            assert(!is_digit(d[i - from]));
            return None;
        }
        i = i + 1;
    }
    assert(all_digits(d));
    let mut acc: u64 = 0;
    let mut i: usize = from;
    while i < n
        invariant
            n == s@.len(),
            from <= i <= n,
            d == s@.skip(from as int),
            all_digits(d),
            acc as nat == digits_value(d.take(i - from)),
        decreases n - i,
    {
        let c = s.get_char(i);
        let ghost t = d.take(i + 1 - from);
        assert(t.drop_last() =~= d.take(i - from));
        assert(t.last() == c);
        let dv = (c as u32 - '0' as u32) as u64;
        let next = match acc.checked_mul(10) {
            Some(m) => m.checked_add(dv),
            None => None,
        };
        match next {
            Some(v) => {
                acc = v;
            },
            None => {
                proof {
                    lemma_prefix_value_le(d, i + 1 - from);
                }
                return None;
            },
        }
        i = i + 1;
    }
    assert(d.take(n - from) =~= d);
    Some(acc)
}

/// Parses unsigned decimal text, as `usize::from_str` reads it.
pub fn parse_usize(s: &str) -> (r: Option<usize>)
    ensures
        r is Some <==> (unsigned_text(s@) is Some && unsigned_text(s@)->0 <= usize::MAX),
        r is Some ==> r->0 == unsigned_text(s@)->0,
{
    let n = s.unicode_len();
    let from: usize = if n > 0 && s.get_char(0) == '+' { 1 } else { 0 };
    proof {
        if from == 0 {
            assert(s@.skip(0) =~= s@);
        }
    }
    match digits_u64(s, from) {
        Some(v) => {
            if v <= usize::MAX as u64 {
                Some(v as usize)
            } else {
                None
            }
        },
        None => None,
    }
}

/// Parses signed decimal text, as `i64::from_str` reads it.
pub fn parse_i64(s: &str) -> (r: Option<i64>)
    ensures
        r is Some <==> (signed_text(s@) is Some && i64::MIN <= signed_text(s@)->0 <= i64::MAX),
        r is Some ==> r->0 == signed_text(s@)->0,
{
    let n = s.unicode_len();
    if n > 0 && s.get_char(0) == '-' {
        match digits_u64(s, 1) {
            Some(v) => {
                if v <= 0x8000_0000_0000_0000u64 {
                    if v == 0x8000_0000_0000_0000u64 {
                        Some(i64::MIN)
                    } else {
                        Some(-(v as i64))
                    }
                } else {
                    None
                }
            },
            None => None,
        }
    } else {
        let from: usize = if n > 0 && s.get_char(0) == '+' { 1 } else { 0 };
        proof {
            if from == 0 {
                assert(s@.skip(0) =~= s@);
            }
        }
        match digits_u64(s, from) {
            Some(v) => {
                if v <= i64::MAX as u64 {
                    Some(v as i64)
                } else {
                    None
                }
            },
            None => None,
        }
    }
}


pub open spec fn digit_char(d: nat) -> char {
    seq!['0', '1', '2', '3', '4', '5', '6', '7', '8', '9'][d as int]
}

/// The decimal text of `n`, without sign or leading zeros.
pub open spec fn decimal(n: nat) -> Seq<char>
    decreases n,
{
    if n < 10 {
        seq![digit_char(n)]
    } else {
        decimal(n / 10).push(digit_char(n % 10))
    }
}

/// The decimal text of `n`.
pub fn render_u64(n: u64) -> (r: String)
    ensures
        r@ == decimal(n as nat),
    decreases n,
{
    let digits = "0123456789";
    proof {
        reveal_strlit("0123456789");
    }
    if n < 10 {
        let d = n as usize;
        String::from_str(digits.substring_char(d, d + 1))
    } else {
        let mut r = render_u64(n / 10);
        let d = (n % 10) as usize;
        let one = digits.substring_char(d, d + 1);
        assert(one@ =~= seq![digit_char(d as nat)]);
        r.append(one);
        r
    }
}


/// Words joined by single spaces.
pub open spec fn join_words(ws: Seq<Seq<char>>) -> Seq<char>
    decreases ws.len(),
{
    if ws.len() == 0 {
        seq![]
    } else if ws.len() == 1 {
        ws[0]
    } else {
        ws[0] + (seq![' '] + join_words(ws.skip(1)))
    }
}

/// A word: at least one character, none of them white space.
pub open spec fn is_word(w: Seq<char>) -> bool {
    w.len() > 0 && forall|i: int| 0 <= i < w.len() ==> !is_space(#[trigger] w[i])
}

proof fn lemma_read_word(w: Seq<char>, tail: Seq<char>, cur: Seq<char>)
    requires
        forall|i: int| 0 <= i < w.len() ==> !is_space(#[trigger] w[i]),
    ensures
        words_acc(w + tail, cur) == words_acc(tail, cur + w),
    decreases w.len(),
{
    if w.len() == 0 {
        assert(w + tail =~= tail);
        assert(cur + w =~= cur);
    } else {
        let s = w + tail;
        assert(s[0] == w[0]);
        assert(s.skip(1) =~= w.skip(1) + tail);
        lemma_read_word(w.skip(1), tail, cur.push(w[0]));
        assert(cur.push(w[0]) + w.skip(1) =~= cur + w);
    }
}

/// Joining words by spaces and splitting the result gives the words back.
pub proof fn lemma_split_join(ws: Seq<Seq<char>>)
    requires
        forall|i: int| 0 <= i < ws.len() ==> is_word(#[trigger] ws[i]),
    ensures
        split_words(join_words(ws)) == ws,
    decreases ws.len(),
{
    if ws.len() == 0 {
    } else if ws.len() == 1 {
        assert(is_word(ws[0]));
        lemma_read_word(ws[0], seq![], seq![]);
        assert(ws[0] + Seq::<char>::empty() =~= ws[0]);
        assert(Seq::<char>::empty() + ws[0] =~= ws[0]);
        assert(ws =~= seq![ws[0]]);
    } else {
        let w = ws[0];
        assert(is_word(w));
        let rest = join_words(ws.skip(1));
        let tail = seq![' '] + rest;
        lemma_read_word(w, tail, seq![]);
        assert(Seq::<char>::empty() + w =~= w);
        assert(tail[0] == ' ');
        assert(tail.skip(1) =~= rest);
        assert forall|i: int| 0 <= i < ws.skip(1).len() implies is_word(#[trigger] ws.skip(1)[i]) by {
            assert(is_word(ws[i + 1]));
        }
        lemma_split_join(ws.skip(1));
        assert(seq![w] + ws.skip(1) =~= ws);
    }
}

proof fn lemma_digit_char(d: nat)
    requires
        d < 10,
    ensures
        is_digit(digit_char(d)),
        digit_value(digit_char(d)) == d,
        digit_char(d) != '-',
        digit_char(d) != '+',
{
    let ds = seq!['0', '1', '2', '3', '4', '5', '6', '7', '8', '9'];
    if d == 0 {
        assert(ds[0] == '0');
    } else if d == 1 {
        assert(ds[1] == '1');
    } else if d == 2 {
        assert(ds[2] == '2');
    } else if d == 3 {
        assert(ds[3] == '3');
    } else if d == 4 {
        assert(ds[4] == '4');
    } else if d == 5 {
        assert(ds[5] == '5');
    } else if d == 6 {
        assert(ds[6] == '6');
    } else if d == 7 {
        assert(ds[7] == '7');
    } else if d == 8 {
        assert(ds[8] == '8');
    } else {
        assert(ds[9] == '9');
    }
}

/// Decimal text reads back as the number it was made from.
pub proof fn lemma_decimal_reads_back(n: nat)
    ensures
        all_digits(decimal(n)),
        digits_value(decimal(n)) == n,
        unsigned_text(decimal(n)) == Some(n),
        signed_text(decimal(n)) == Some(n as int),
        is_word(decimal(n)),
    decreases n,
{
    if n < 10 {
        lemma_digit_char(n);
        let s = decimal(n);
        assert(s.drop_last() =~= Seq::<char>::empty());
        assert(digits_value(s.drop_last()) == 0);
        assert(s.last() == digit_char(n));
        assert(digits_value(s) == n);
        assert(is_digit(s[0]));
    } else {
        lemma_decimal_reads_back(n / 10);
        lemma_digit_char(n % 10);
        let s = decimal(n);
        assert(s.drop_last() =~= decimal(n / 10));
        assert(forall|i: int| 0 <= i < s.len() - 1 ==> s[i] == decimal(n / 10)[i]);
        assert(s.last() == digit_char(n % 10));
        assert(n == (n / 10) * 10 + n % 10);
        assert(digits_value(s) == n);
        assert(is_digit(s[0]));
    }
}


proof fn lemma_join_push(ws: Seq<Seq<char>>, w: Seq<char>)
    requires
        ws.len() >= 1,
    ensures
        join_words(ws.push(w)) == join_words(ws) + (seq![' '] + w),
    decreases ws.len(),
{
    let wp = ws.push(w);
    if ws.len() == 1 {
        assert(wp.skip(1) =~= seq![w]);
        assert(join_words(wp.skip(1)) == w);
    } else {
        assert(wp.skip(1) =~= ws.skip(1).push(w));
        lemma_join_push(ws.skip(1), w);
        assert(ws[0] + (seq![' '] + (join_words(ws.skip(1)) + (seq![' '] + w))) =~= (ws[0] + (seq![' ']
            + join_words(ws.skip(1)))) + (seq![' '] + w));
    }
}

/// The words joined by single spaces.
pub fn join_with_spaces(ws: &Vec<String>) -> (r: String)
    ensures
        r@ == join_words(views(ws@)),
{
    let ghost v = views(ws@);
    if ws.len() == 0 {
        return String::new();
    }
    let mut r = ws[0].clone();
    let sp = " ";
    proof {
        reveal_strlit(" ");
        assert(v.take(1) =~= seq![v[0]]);
    }
    let mut i: usize = 1;
    while i < ws.len()
        invariant
            v == views(ws@),
            1 <= i <= ws@.len(),
            sp@ == seq![' '],
            r@ == join_words(v.take(i as int)),
        decreases ws@.len() - i,
    {
        let ghost before = r@;
        r.append(sp);
        r.append(ws[i].as_str());
        proof {
            assert(v.take(i + 1) =~= v.take(i as int).push(v[i as int]));
            lemma_join_push(v.take(i as int), v[i as int]);
            assert(r@ =~= before + (seq![' '] + v[i as int]));
        }
        i = i + 1;
    }
    assert(v.take(i as int) =~= v);
    r
}

} // verus!
