//! Reading the engine's `info` lines into search records.

use vstd::prelude::*;
use vstd::string::*;

use crate::score::Score;
use crate::text::{
    decimal, is_digit, is_word, join_words, lemma_decimal_reads_back,
    join_with_spaces, lemma_split_join, parse_i64, render_u64, parse_usize, signed_text, split_tokens, split_words,
    unsigned_text, views,
};

verus! {

/// One reported principal variation.
#[derive(Debug)]
pub struct SearchInfo {
    pub depth: usize,
    pub score: Score,
    pub multipv: usize,
    pub nps: usize,
    /// The variation's moves, in the protocol's coordinate notation.
    pub pv: Vec<String>,
}

/// What a scan of a line has gathered so far.
pub struct Fields {
    pub depth: Option<usize>,
    pub score: Option<Score>,
    pub multipv: Option<usize>,
    pub nps: Option<usize>,
    pub pv: Option<Seq<Seq<char>>>,
}

pub open spec fn no_fields() -> Fields {
    Fields { depth: None, score: None, multipv: None, nps: None, pv: None }
}

pub open spec fn starts_with(w: Seq<char>, p: Seq<char>) -> bool {
    p.len() <= w.len() && w.take(p.len() as int) == p
}

/// The token at `j`, read as a `usize`.
pub open spec fn usize_at(toks: Seq<Seq<char>>, j: int) -> Option<usize> {
    if 0 <= j < toks.len() && unsigned_text(toks[j]) is Some && unsigned_text(toks[j])->0
        <= usize::MAX {
        Some(unsigned_text(toks[j])->0 as usize)
    } else {
        None
    }
}

/// The token at `j`, read as an `i64`.
pub open spec fn i64_at(toks: Seq<Seq<char>>, j: int) -> Option<i64> {
    if 0 <= j < toks.len() && signed_text(toks[j]) is Some && i64::MIN <= signed_text(toks[j])->0
        <= i64::MAX {
        Some(signed_text(toks[j])->0 as i64)
    } else {
        None
    }
}

/// Where a variation starting at `i` ends: at the first token that
/// introduces the move being searched, or at the end of the line.
pub open spec fn pv_end(toks: Seq<Seq<char>>, i: int) -> int
    decreases toks.len() - i,
{
    if i >= toks.len() {
        toks.len() as int
    } else if starts_with(toks[i], "currmove"@) {
        i
    } else {
        pv_end(toks, i + 1)
    }
}

/// The effect of the token at `k` on what has been gathered: a keyword
/// takes the value that follows it (a later one overriding an earlier),
/// and a keyword without a well-formed value spoils the line.
pub open spec fn step(toks: Seq<Seq<char>>, k: int, f: Fields) -> Option<Fields> {
    let t = toks[k];
    if t == "depth"@ {
        match usize_at(toks, k + 1) {
            Some(v) => Some(Fields { depth: Some(v), ..f }),
            None => None,
        }
    } else if t == "score"@ {
        if k + 1 < toks.len() && (toks[k + 1] == "cp"@ || toks[k + 1] == "mate"@) {
            match i64_at(toks, k + 2) {
                Some(v) => Some(
                    Fields {
                        score: Some(if toks[k + 1] == "cp"@ { Score::Cp(v) } else { Score::Mate(v) }),
                        ..f
                    },
                ),
                None => None,
            }
        } else {
            None
        }
    } else if t == "nps"@ {
        match usize_at(toks, k + 1) {
            Some(v) => Some(Fields { nps: Some(v), ..f }),
            None => None,
        }
    } else if t == "multipv"@ {
        match usize_at(toks, k + 1) {
            Some(v) => Some(Fields { multipv: Some(v), ..f }),
            None => None,
        }
    } else if t == "pv"@ {
        Some(Fields { pv: Some(toks.subrange(k + 1, pv_end(toks, k + 1))), ..f })
    } else {
        Some(f)
    }
}

/// What the first `i` tokens yield, or `None` if one of them is malformed.
pub open spec fn scan(toks: Seq<Seq<char>>, i: nat) -> Option<Fields>
    decreases i,
{
    if i == 0 {
        Some(no_fields())
    } else {
        match scan(toks, (i - 1) as nat) {
            Some(f) => step(toks, i - 1, f),
            None => None,
        }
    }
}

/// The fields of an engine line: it must open with `info`, scan without
/// fault, and carry all of depth, score, multipv, nps and pv.
pub open spec fn line_fields(line: Seq<char>) -> Option<Fields> {
    let toks = split_words(line);
    if toks.len() > 0 && toks[0] == "info"@ {
        match scan(toks, toks.len()) {
            Some(f) => if f.depth is Some && f.score is Some && f.multipv is Some && f.nps is Some
                && f.pv is Some {
                Some(f)
            } else {
                None
            },
            None => None,
        }
    } else {
        None
    }
}

/// Whether `r` holds exactly the gathered fields `f`.
pub open spec fn info_matches(r: SearchInfo, f: Fields) -> bool {
    &&& f.depth == Some(r.depth)
    &&& f.score == Some(r.score)
    &&& f.multipv == Some(r.multipv)
    &&& f.nps == Some(r.nps)
    &&& f.pv == Some(views(r.pv@))
}

pub open spec fn opt_views(v: Option<Vec<String>>) -> Option<Seq<Seq<char>>> {
    match v {
        Some(w) => Some(views(w@)),
        None => None,
    }
}

fn word_is(w: &String, lit: &str) -> (r: bool)
    ensures
        r == (w@ == lit@),
{
    let n = lit.unicode_len();
    if w.as_str().unicode_len() != n {
        return false;
    }
    let mut i: usize = 0;
    while i < n
        invariant
            n == lit@.len(),
            n == w@.len(),
            i <= n,
            forall|k: int| 0 <= k < i ==> w@[k] == lit@[k],
        decreases n - i,
    {
        if w.as_str().get_char(i) != lit.get_char(i) {
            return false;
        }
        i = i + 1;
    }
    assert(w@ =~= lit@);
    true
}

fn word_starts_with(w: &String, lit: &str) -> (r: bool)
    ensures
        r == starts_with(w@, lit@),
{
    let n = lit.unicode_len();
    if w.as_str().unicode_len() < n {
        return false;
    }
    let mut i: usize = 0;
    while i < n
        invariant
            n == lit@.len(),
            n <= w@.len(),
            i <= n,
            forall|k: int| 0 <= k < i ==> w@[k] == lit@[k],
        decreases n - i,
    {
        if w.as_str().get_char(i) != lit.get_char(i) {
            assert(w@.take(n as int)[i as int] != lit@[i as int]);
            return false;
        }
        i = i + 1;
    }
    assert(w@.take(n as int) =~= lit@);
    true
}


proof fn lemma_scan_stays_spoilt(toks: Seq<Seq<char>>, i: nat, j: nat)
    requires
        i <= j,
        scan(toks, i) is None,
    ensures
        scan(toks, j) is None,
    decreases j - i,
{
    if i < j {
        lemma_scan_stays_spoilt(toks, i, (j - 1) as nat);
    }
}

/// The moves of a variation that starts at token `from`.
fn collect_pv(toks: &Vec<String>, from: usize) -> (r: Vec<String>)
    requires
        from <= toks@.len(),
    ensures
        views(r@) == views(toks@).subrange(from as int, pv_end(views(toks@), from as int)),
{
    let ghost tv = views(toks@);
    let mut out: Vec<String> = Vec::new();
    let mut j: usize = from;
    while j < toks.len() && !word_starts_with(&toks[j], "currmove")
        invariant
            tv == views(toks@),
            from <= j <= toks@.len(),
            pv_end(tv, from as int) == pv_end(tv, j as int),
            views(out@) == tv.subrange(from as int, j as int),
        decreases toks@.len() - j,
    {
        let w = toks[j].clone();
        proof {
            assert(w@ == tv[j as int]);
            assert(views(out@.push(w)) =~= views(out@).push(w@));
            assert(views(out@.push(w)) =~= tv.subrange(from as int, j + 1));
        }
        out.push(w);
        j = j + 1;
    }
    out
}

/// Reads one engine output line. Lines that are not well-formed `info`
/// lines with a variation yield `None`; nothing here fails otherwise.
pub fn parse_info_line(line: &str) -> (r: Option<SearchInfo>)
    ensures
        r is Some <==> line_fields(line@) is Some,
        r is Some ==> info_matches(r->0, line_fields(line@)->0),
{
    let toks = split_tokens(line);
    let ghost tv = views(toks@);
    if toks.len() == 0 || !word_is(&toks[0], "info") {
        return None;
    }
    let n = toks.len();
    let mut depth: Option<usize> = None;
    let mut score: Option<Score> = None;
    let mut multipv: Option<usize> = None;
    let mut nps: Option<usize> = None;
    let mut pv: Option<Vec<String>> = None;
    let mut k: usize = 0;
    while k < n
        invariant
            n == toks@.len(),
            tv == views(toks@),
            tv == split_words(line@),
            k <= n,
            scan(tv, k as nat) == Some(
                Fields { depth, score, multipv, nps, pv: opt_views(pv) },
            ),
        decreases n - k,
    {
        let ghost f = Fields { depth, score, multipv, nps, pv: opt_views(pv) };
        assert(scan(tv, (k + 1) as nat) == step(tv, k as int, f));
        let t = &toks[k];
        assert(tv[k as int] == t@);
        if word_is(t, "depth") {
            if k + 1 < n {
                assert(tv[k + 1] == toks@[k + 1]@);
            }
            let v = if k + 1 < n { parse_usize(toks[k + 1].as_str()) } else { None };
            match v {
                Some(v) => depth = Some(v),
                None => {
                    proof {
                        lemma_scan_stays_spoilt(tv, (k + 1) as nat, n as nat);
                    }
                    return None;
                },
            }
        } else if word_is(t, "score") {
            if k + 1 < n {
                assert(tv[k + 1] == toks@[k + 1]@);
            }
            if n - k > 2 {
                assert(tv[k + 2] == toks@[k + 2]@);
            }
            if k + 1 < n && (word_is(&toks[k + 1], "cp") || word_is(&toks[k + 1], "mate")) {
                let v = if n - k > 2 { parse_i64(toks[k + 2].as_str()) } else { None };
                match v {
                    Some(v) => {
                        score = Some(if word_is(&toks[k + 1], "cp") { Score::Cp(v) } else { Score::Mate(v) });
                    },
                    None => {
                        proof {
                            lemma_scan_stays_spoilt(tv, (k + 1) as nat, n as nat);
                        }
                        return None;
                    },
                }
            } else {
                proof {
                    lemma_scan_stays_spoilt(tv, (k + 1) as nat, n as nat);
                }
                return None;
            }
        } else if word_is(t, "nps") {
            if k + 1 < n {
                assert(tv[k + 1] == toks@[k + 1]@);
            }
            let v = if k + 1 < n { parse_usize(toks[k + 1].as_str()) } else { None };
            match v {
                Some(v) => nps = Some(v),
                None => {
                    proof {
                        lemma_scan_stays_spoilt(tv, (k + 1) as nat, n as nat);
                    }
                    return None;
                },
            }
        } else if word_is(t, "multipv") {
            if k + 1 < n {
                assert(tv[k + 1] == toks@[k + 1]@);
            }
            let v = if k + 1 < n { parse_usize(toks[k + 1].as_str()) } else { None };
            match v {
                Some(v) => multipv = Some(v),
                None => {
                    proof {
                        lemma_scan_stays_spoilt(tv, (k + 1) as nat, n as nat);
                    }
                    return None;
                },
            }
        } else if word_is(t, "pv") {
            pv = Some(collect_pv(&toks, k + 1));
        }
        k = k + 1;
    }
    match (depth, score, multipv, nps, pv) {
        (Some(depth), Some(score), Some(multipv), Some(nps), Some(pv)) => Some(
            SearchInfo { depth, score, multipv, nps, pv },
        ),
        _ => None,
    }
}


/// The words that introduce a value of a line.
pub open spec fn is_keyword(w: Seq<char>) -> bool {
    w == "depth"@ || w == "score"@ || w == "nps"@ || w == "multipv"@ || w == "pv"@
}

/// A word that can stand in a variation: no keyword, and not the marker
/// of the move being searched.
pub open spec fn is_move_word(w: Seq<char>) -> bool {
    is_word(w) && !is_keyword(w) && !starts_with(w, "currmove"@)
}

/// The text of a signed number.
pub open spec fn signed_decimal(x: int) -> Seq<char> {
    if x < 0 {
        seq!['-'] + decimal((-x) as nat)
    } else {
        decimal(x as nat)
    }
}

/// The words of the line that reports `info`.
pub open spec fn info_words(info: SearchInfo) -> Seq<Seq<char>> {
    let (kind, value) = match info.score {
        Score::Cp(v) => ("cp"@, v),
        Score::Mate(v) => ("mate"@, v),
    };
    seq![
        "info"@,
        "depth"@,
        decimal(info.depth as nat),
        "multipv"@,
        decimal(info.multipv as nat),
        "score"@,
        kind,
        signed_decimal(value as int),
        "nps"@,
        decimal(info.nps as nat),
        "pv"@,
    ] + views(info.pv@)
}

/// The line that reports `info`, its words separated by single spaces.
pub open spec fn info_text(info: SearchInfo) -> Seq<char> {
    join_words(info_words(info))
}

proof fn lemma_signed_decimal(x: i64)
    ensures
        signed_text(signed_decimal(x as int)) == Some(x as int),
        is_word(signed_decimal(x as int)),
        !is_keyword(signed_decimal(x as int)),
{
    let w = signed_decimal(x as int);
    reveal_strlit("depth");
    reveal_strlit("score");
    reveal_strlit("nps");
    reveal_strlit("multipv");
    reveal_strlit("pv");
    if x < 0 {
        let m = (-(x as int)) as nat;
        lemma_decimal_reads_back(m);
        assert(w.skip(1) =~= decimal(m));
        assert(w[0] == '-');
        assert(is_word(w)) by {
            assert forall|i: int| 0 <= i < w.len() implies !crate::text::is_space(#[trigger] w[i]) by {
                if i > 0 {
                    assert(w[i] == decimal(m)[i - 1]);
                }
            }
        }
    } else {
        lemma_decimal_reads_back(x as nat);
        assert(is_digit(w[0]));
    }
}

proof fn lemma_number_word(n: nat)
    ensures
        is_word(decimal(n)),
        !is_keyword(decimal(n)),
        !starts_with(decimal(n), "currmove"@),
{
    lemma_decimal_reads_back(n);
    assert(is_digit(decimal(n)[0]));
    reveal_strlit("depth");
    reveal_strlit("score");
    reveal_strlit("nps");
    reveal_strlit("multipv");
    reveal_strlit("pv");
    reveal_strlit("currmove");
    if starts_with(decimal(n), "currmove"@) {
        assert(decimal(n).take(8)[0] == decimal(n)[0]);
    }
}

proof fn lemma_scan_over_moves(toks: Seq<Seq<char>>, f: Fields, from: nat, j: nat)
    requires
        from <= j <= toks.len(),
        scan(toks, from) == Some(f),
        forall|k: int| from <= k < j ==> !is_keyword(#[trigger] toks[k]),
    ensures
        scan(toks, j) == Some(f),
    decreases j - from,
{
    if j > from {
        lemma_scan_over_moves(toks, f, from, (j - 1) as nat);
        assert(!is_keyword(toks[j - 1]));
    }
}

proof fn lemma_pv_runs_to_end(toks: Seq<Seq<char>>, i: int)
    requires
        0 <= i <= toks.len(),
        forall|k: int| i <= k < toks.len() ==> !starts_with(#[trigger] toks[k], "currmove"@),
    ensures
        pv_end(toks, i) == toks.len(),
    decreases toks.len() - i,
{
    if i < toks.len() {
        lemma_pv_runs_to_end(toks, i + 1);
    }
}

/// Reading back the line that reports a search record gives that record,
/// where its variation is made of move words.
pub proof fn lemma_info_round_trip(info: SearchInfo)
    requires
        forall|i: int| 0 <= i < info.pv@.len() ==> is_move_word(#[trigger] info.pv@[i]@),
    ensures
        line_fields(info_text(info)) is Some,
        info_matches(info, line_fields(info_text(info))->0),
{
    let toks = info_words(info);
    let pv = views(info.pv@);
    reveal_strlit("info");
    reveal_strlit("depth");
    reveal_strlit("score");
    reveal_strlit("nps");
    reveal_strlit("multipv");
    reveal_strlit("pv");
    reveal_strlit("cp");
    reveal_strlit("mate");
    reveal_strlit("currmove");
    let (kind, value) = match info.score {
        Score::Cp(v) => ("cp"@, v),
        Score::Mate(v) => ("mate"@, v),
    };
    lemma_number_word(info.depth as nat);
    lemma_number_word(info.multipv as nat);
    lemma_number_word(info.nps as nat);
    lemma_signed_decimal(value);
    lemma_decimal_reads_back(info.depth as nat);
    lemma_decimal_reads_back(info.multipv as nat);
    lemma_decimal_reads_back(info.nps as nat);
    assert(toks.len() == 11 + pv.len());
    assert forall|k: int| 11 <= k < toks.len() implies #[trigger] toks[k] == pv[k - 11] by {}
    assert forall|k: int| 0 <= k < pv.len() implies is_move_word(#[trigger] pv[k]) by {
        assert(is_move_word(info.pv@[k]@));
    }
    assert forall|k: int| 0 <= k < toks.len() implies is_word(#[trigger] toks[k]) by {
        if k >= 11 {
            assert(is_move_word(pv[k - 11]));
        }
    }
    lemma_split_join(toks);
    assert(split_words(info_text(info)) == toks);
    let f0 = no_fields();
    let f2 = Fields { depth: Some(info.depth), ..f0 };
    let f4 = Fields { multipv: Some(info.multipv), ..f2 };
    let f6 = Fields { score: Some(info.score), ..f4 };
    let f9 = Fields { nps: Some(info.nps), ..f6 };
    assert(scan(toks, 0) == Some(f0));
    assert(toks[0] == "info"@);
    assert(!is_keyword(toks[0]));
    assert(step(toks, 0, f0) == Some(f0));
    assert(scan(toks, 1) == Some(f0));
    assert(usize_at(toks, 2) == Some(info.depth));
    assert(scan(toks, 2) == Some(f2));
    assert(scan(toks, 3) == Some(f2));
    assert(usize_at(toks, 4) == Some(info.multipv));
    assert(scan(toks, 4) == Some(f4));
    assert(scan(toks, 5) == Some(f4));
    assert(i64_at(toks, 7) == Some(value));
    assert(scan(toks, 6) == Some(f6));
    assert(scan(toks, 7) == Some(f6));
    assert(scan(toks, 8) == Some(f6));
    assert(usize_at(toks, 9) == Some(info.nps));
    assert(scan(toks, 9) == Some(f9));
    assert(scan(toks, 10) == Some(f9));
    assert forall|k: int| 11 <= k < toks.len() implies !starts_with(#[trigger] toks[k], "currmove"@) by {
        assert(is_move_word(pv[k - 11]));
    }
    lemma_pv_runs_to_end(toks, 11);
    assert(toks.subrange(11, toks.len() as int) =~= pv);
    let f11 = Fields { pv: Some(pv), ..f9 };
    assert(scan(toks, 11) == Some(f11));
    assert forall|k: int| 11 <= k < toks.len() implies !is_keyword(#[trigger] toks[k]) by {
        assert(is_move_word(pv[k - 11]));
    }
    lemma_scan_over_moves(toks, f11, 11, toks.len());
}


/// The decimal text of `x`, with a `-` where it is negative.
pub fn render_i64(x: i64) -> (r: String)
    ensures
        r@ == signed_decimal(x as int),
{
    if x < 0 {
        let m: u64 = if x == i64::MIN { 0x8000_0000_0000_0000u64 } else { (-x) as u64 };
        let mut r = String::from_str("-");
        proof {
            reveal_strlit("-");
        }
        r.append(render_u64(m).as_str());
        r
    } else {
        render_u64(x as u64)
    }
}

impl SearchInfo {
    /// The line that reports this record, its words separated by single
    /// spaces.
    pub fn to_line(&self) -> (r: String)
        ensures
            r@ == info_text(*self),
    {
        let (kind, value) = match self.score {
            Score::Cp(v) => ("cp", v),
            Score::Mate(v) => ("mate", v),
        };
        let mut words: Vec<String> = Vec::new();
        words.push(String::from_str("info"));
        words.push(String::from_str("depth"));
        words.push(render_u64(self.depth as u64));
        words.push(String::from_str("multipv"));
        words.push(render_u64(self.multipv as u64));
        words.push(String::from_str("score"));
        words.push(String::from_str(kind));
        words.push(render_i64(value));
        words.push(String::from_str("nps"));
        words.push(render_u64(self.nps as u64));
        words.push(String::from_str("pv"));
        let ghost head = views(words@);
        let mut i: usize = 0;
        while i < self.pv.len()
            invariant
                i <= self.pv@.len(),
                words@.len() == 11 + i,
                views(words@) == head + views(self.pv@).take(i as int),
            decreases self.pv@.len() - i,
        {
            let w = self.pv[i].clone();
            proof {
                assert(views(words@.push(w)) =~= views(words@).push(w@));
                assert(views(self.pv@).take(i + 1) =~= views(self.pv@).take(i as int).push(w@));
            }
            words.push(w);
            i = i + 1;
        }
        proof {
            assert(views(self.pv@).take(i as int) =~= views(self.pv@));
            assert(head + views(self.pv@) =~= info_words(*self));
        }
        join_with_spaces(&words)
    }
}

} // verus!
