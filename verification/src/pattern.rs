//! Glob pattern matching over file names.
//!
//! A pattern is a byte string built from literals, `?` (any one byte), `*`
//! (any run of bytes) and character classes `[...]` / `[!...]` holding single
//! bytes and inclusive ranges `a-z`. A `]` directly after `[` or `[!` is a
//! literal member, as is a `-` first or last in a class. A pattern whose
//! class is never closed is invalid and is rejected when the matcher is
//! built, not when a name is tested.
//!
//! The grammar is given as a byte-by-byte scan (`scan_step`); matching as a
//! recursive relation over the scanned tokens (`glob_match_from`). The
//! executable parser and matcher are proved to return exactly what those two
//! say, so what `matches` accepts is pinned down to the pattern string alone.

use vstd::prelude::*;

verus! {

/// `*`
pub const STAR: u8 = 42;

/// `?`
pub const QUESTION: u8 = 63;

/// `[`
pub const OPEN_CLASS: u8 = 91;

/// `]`
pub const CLOSE_CLASS: u8 = 93;

/// `!`
pub const NEGATE: u8 = 33;

/// `-`
pub const RANGE_DASH: u8 = 45;

/// One member of a character class: a single byte or an inclusive range.
#[derive(Clone, Copy, Debug)]
pub enum ClassItem {
    Single(u8),
    Range(u8, u8),
}

/// One element of a scanned pattern, at the specification level.
pub enum GToken {
    /// Exactly this byte.
    Literal(u8),
    /// Any one byte (`?`).
    AnyChar,
    /// Any run of bytes, empty included (`*`).
    AnySeq,
    /// One byte drawn from (or, negated, from outside) the members.
    Class { negated: bool, items: Seq<ClassItem> },
}

/// One element of a compiled pattern, as executed.
enum Token {
    Literal(u8),
    AnyChar,
    AnySeq,
    Class { negated: bool, items: Vec<ClassItem> },
}

impl View for Token {
    type V = GToken;

    closed spec fn view(&self) -> GToken {
        match self {
            Token::Literal(b) => GToken::Literal(*b),
            Token::AnyChar => GToken::AnyChar,
            Token::AnySeq => GToken::AnySeq,
            Token::Class { negated, items } => GToken::Class {
                negated: *negated,
                items: items@,
            },
        }
    }
}

/// Whether one class member covers byte `b`.
pub open spec fn class_item_matches(item: ClassItem, b: u8) -> bool {
    match item {
        ClassItem::Single(c) => b == c,
        ClassItem::Range(lo, hi) => lo <= b && b <= hi,
    }
}

/// Whether any member of a class covers byte `b`.
pub open spec fn class_contains(items: Seq<ClassItem>, b: u8) -> bool {
    exists|i: int| 0 <= i < items.len() && class_item_matches(items[i], b)
}

/// Whether the tokens from `ti` on match the name bytes from `si` on.
/// `*` may cover any run, trying the empty run first; every other token
/// consumes exactly one byte.
pub open spec fn glob_match_from(ts: Seq<GToken>, ti: nat, s: Seq<u8>, si: nat) -> bool
    decreases ts.len() - ti, s.len() - si,
{
    if ti >= ts.len() {
        si >= s.len()
    } else {
        match ts[ti as int] {
            GToken::AnySeq => glob_match_from(ts, ti + 1, s, si) || (si < s.len()
                && glob_match_from(ts, ti, s, si + 1)),
            GToken::Literal(c) => si < s.len() && s[si as int] == c && glob_match_from(
                ts,
                ti + 1,
                s,
                si + 1,
            ),
            GToken::AnyChar => si < s.len() && glob_match_from(ts, ti + 1, s, si + 1),
            GToken::Class { negated, items } => si < s.len() && (class_contains(
                items,
                s[si as int],
            ) != negated) && glob_match_from(ts, ti + 1, s, si + 1),
        }
    }
}

/// What `*` means, spelled out: a pattern with `*` at `ti` matches from `si`
/// exactly when the rest of the pattern matches from some later point — the
/// `*` covers the skipped run, whatever its length.
pub proof fn lemma_any_seq_splits(ts: Seq<GToken>, ti: nat, s: Seq<u8>, si: nat)
    requires
        ti < ts.len(),
        ts[ti as int] == GToken::AnySeq,
        si <= s.len(),
    ensures
        glob_match_from(ts, ti, s, si) <==> exists|k: nat|
            si <= k <= s.len() && #[trigger] glob_match_from(ts, ti + 1, s, k),
    decreases s.len() - si,
{
    if glob_match_from(ts, ti, s, si) {
        if glob_match_from(ts, ti + 1, s, si) {
            assert(si <= si <= s.len() && glob_match_from(ts, ti + 1, s, si));
        } else {
            assert(si < s.len() && glob_match_from(ts, ti, s, si + 1));
            lemma_any_seq_splits(ts, ti, s, si + 1);
            let k2 = choose|k2: nat|
                si + 1 <= k2 <= s.len() && #[trigger] glob_match_from(ts, ti + 1, s, k2);
            assert(si <= k2 <= s.len() && glob_match_from(ts, ti + 1, s, k2));
        }
    }
    if exists|k: nat| si <= k <= s.len() && #[trigger] glob_match_from(ts, ti + 1, s, k) {
        let k = choose|k: nat| si <= k <= s.len() && #[trigger] glob_match_from(ts, ti + 1, s, k);
        if k == si {
            assert(glob_match_from(ts, ti + 1, s, si));
            assert(glob_match_from(ts, ti, s, si));
        } else {
            assert(si < s.len());
            lemma_any_seq_splits(ts, ti, s, si + 1);
            assert(si + 1 <= k <= s.len() && glob_match_from(ts, ti + 1, s, k));
            assert(glob_match_from(ts, ti, s, si + 1));
            assert(glob_match_from(ts, ti, s, si));
        }
    }
}

/// Where the pattern scan stands after some bytes.
pub enum ScanMode {
    /// Between tokens.
    Outside,
    /// Just after `[`: a `!` negates, any other byte is the first member.
    ClassStart,
    /// Just after `[!`: the next byte is the first member, `]` included.
    ClassFirst { negated: bool },
    /// Inside a class body. `prev` is a byte that may yet begin a range,
    /// `dash` whether a `-` after it is pending.
    ClassBody { negated: bool, items: Seq<ClassItem>, prev: Option<u8>, dash: bool },
}

/// Scan state: the tokens finished so far and the mode within the grammar.
pub struct ScanState {
    pub toks: Seq<GToken>,
    pub mode: ScanMode,
}

/// The scan before any byte.
pub open spec fn scan_init() -> ScanState {
    ScanState { toks: Seq::empty(), mode: ScanMode::Outside }
}

/// One byte of the pattern scan.
pub open spec fn scan_step(st: ScanState, b: u8) -> ScanState {
    match st.mode {
        ScanMode::Outside => {
            if b == STAR {
                ScanState { toks: st.toks.push(GToken::AnySeq), mode: ScanMode::Outside }
            } else if b == QUESTION {
                ScanState { toks: st.toks.push(GToken::AnyChar), mode: ScanMode::Outside }
            } else if b == OPEN_CLASS {
                ScanState { toks: st.toks, mode: ScanMode::ClassStart }
            } else {
                ScanState { toks: st.toks.push(GToken::Literal(b)), mode: ScanMode::Outside }
            }
        },
        ScanMode::ClassStart => {
            if b == NEGATE {
                ScanState { toks: st.toks, mode: ScanMode::ClassFirst { negated: true } }
            } else {
                ScanState {
                    toks: st.toks,
                    mode: ScanMode::ClassBody {
                        negated: false,
                        items: Seq::empty(),
                        prev: Some(b),
                        dash: false,
                    },
                }
            }
        },
        ScanMode::ClassFirst { negated } => ScanState {
            toks: st.toks,
            mode: ScanMode::ClassBody {
                negated,
                items: Seq::empty(),
                prev: Some(b),
                dash: false,
            },
        },
        ScanMode::ClassBody { negated, items, prev, dash } => match prev {
            Some(p) => {
                if dash {
                    if b == CLOSE_CLASS {
                        ScanState {
                            toks: st.toks.push(GToken::Class {
                                negated,
                                items: items.push(ClassItem::Single(p)).push(
                                    ClassItem::Single(RANGE_DASH),
                                ),
                            }),
                            mode: ScanMode::Outside,
                        }
                    } else {
                        ScanState {
                            toks: st.toks,
                            mode: ScanMode::ClassBody {
                                negated,
                                items: items.push(ClassItem::Range(p, b)),
                                prev: None,
                                dash: false,
                            },
                        }
                    }
                } else {
                    if b == CLOSE_CLASS {
                        ScanState {
                            toks: st.toks.push(GToken::Class {
                                negated,
                                items: items.push(ClassItem::Single(p)),
                            }),
                            mode: ScanMode::Outside,
                        }
                    } else if b == RANGE_DASH {
                        ScanState {
                            toks: st.toks,
                            mode: ScanMode::ClassBody { negated, items, prev: Some(p), dash: true },
                        }
                    } else {
                        ScanState {
                            toks: st.toks,
                            mode: ScanMode::ClassBody {
                                negated,
                                items: items.push(ClassItem::Single(p)),
                                prev: Some(b),
                                dash: false,
                            },
                        }
                    }
                }
            },
            None => {
                if b == CLOSE_CLASS {
                    ScanState {
                        toks: st.toks.push(GToken::Class { negated, items }),
                        mode: ScanMode::Outside,
                    }
                } else {
                    ScanState {
                        toks: st.toks,
                        mode: ScanMode::ClassBody {
                            negated,
                            items,
                            prev: Some(b),
                            dash: false,
                        },
                    }
                }
            },
        },
    }
}

/// Scan a whole pattern string.
pub open spec fn scan_pattern(pat: Seq<u8>) -> ScanState
    decreases pat.len(),
{
    if pat.len() == 0 {
        scan_init()
    } else {
        scan_step(scan_pattern(pat.drop_last()), pat.last())
    }
}

/// A pattern string is valid when its scan ends between tokens — that is,
/// when every opened class is closed.
pub open spec fn pattern_ok(pat: Seq<u8>) -> bool {
    scan_pattern(pat).mode is Outside
}

/// The tokens of a pattern string.
pub open spec fn pattern_tokens(pat: Seq<u8>) -> Seq<GToken> {
    scan_pattern(pat).toks
}

/// Scanning one more pattern byte extends the scan of the prefix by one step.
pub proof fn lemma_scan_pattern_snoc(pat: Seq<u8>, i: int)
    requires
        0 <= i < pat.len(),
    ensures
        scan_pattern(pat.take(i + 1)) == scan_step(scan_pattern(pat.take(i)), pat[i]),
{
    assert(pat.take(i + 1).drop_last() =~= pat.take(i));
    assert(pat.take(i + 1).last() == pat[i]);
}

/// The view of a compiled token vector.
spec fn toks_view(ts: Seq<Token>) -> Seq<GToken> {
    ts.map_values(|t: Token| t@)
}

/// An invalid glob pattern, found when the matcher is built.
#[derive(Clone, Copy, Debug, PartialEq, Eq, Structural)]
pub enum PatternError {
    /// A `[` class was opened and never closed.
    UnclosedClass,
}

/// A compiled glob pattern. Its view is the token sequence of the pattern
/// string it was built from.
pub struct Pattern {
    toks: Vec<Token>,
}

/// Parse-loop mode, mirroring `ScanMode` without the class payload.
#[derive(Clone, Copy, PartialEq, Eq, Structural)]
enum ParsePhase {
    Outside,
    ClassStart,
    ClassFirst,
    ClassBody,
}

impl View for Pattern {
    type V = Seq<GToken>;

    closed spec fn view(&self) -> Seq<GToken> {
        toks_view(self.toks@)
    }
}

impl Pattern {
    /// What this matcher accepts: the glob relation between its pattern's
    /// tokens and the name.
    pub open spec fn spec_matches(self, name: Seq<u8>) -> bool {
        glob_match_from(self@, 0, name, 0)
    }

    /// Compile a pattern string. Returns the matcher exactly when the
    /// string is a valid glob; an unclosed class is the one way to fail.
    pub fn new(pat: &Vec<u8>) -> (r: Result<Pattern, PatternError>)
        ensures
            r is Ok <==> pattern_ok(pat@),
            r is Ok ==> r->Ok_0@ == pattern_tokens(pat@),
    {
        let mut toks: Vec<Token> = Vec::new();
        let mut phase: ParsePhase = ParsePhase::Outside;
        let mut negated: bool = false;
        let mut items: Vec<ClassItem> = Vec::new();
        let mut prev: Option<u8> = None;
        let mut dash: bool = false;
        let mut i: usize = 0;
        proof {
            assert(pat@.take(0) =~= Seq::<u8>::empty());
            assert(toks_view(toks@) =~= Seq::<GToken>::empty());
        }
        while i < pat.len()
            invariant
                i <= pat.len(),
                toks_view(toks@) == scan_pattern(pat@.take(i as int)).toks,
                phase == ParsePhase::Outside ==> scan_pattern(pat@.take(i as int)).mode
                    == ScanMode::Outside,
                phase == ParsePhase::ClassStart ==> scan_pattern(pat@.take(i as int)).mode
                    == ScanMode::ClassStart,
                phase == ParsePhase::ClassFirst ==> scan_pattern(pat@.take(i as int)).mode
                    == (ScanMode::ClassFirst { negated }),
                phase == ParsePhase::ClassBody ==> scan_pattern(pat@.take(i as int)).mode
                    == (ScanMode::ClassBody { negated, items: items@, prev, dash }),
            decreases pat.len() - i,
        {
            let b = pat[i];
            proof {
                lemma_scan_pattern_snoc(pat@, i as int);
            }
            match phase {
                ParsePhase::Outside => {
                    if b == STAR {
                        let ghost old_toks = toks@;
                        toks.push(Token::AnySeq);
                        proof {
                            assert(toks_view(toks@) =~= toks_view(old_toks).push(GToken::AnySeq));
                        }
                    } else if b == QUESTION {
                        let ghost old_toks = toks@;
                        toks.push(Token::AnyChar);
                        proof {
                            assert(toks_view(toks@) =~= toks_view(old_toks).push(GToken::AnyChar));
                        }
                    } else if b == OPEN_CLASS {
                        phase = ParsePhase::ClassStart;
                    } else {
                        let ghost old_toks = toks@;
                        toks.push(Token::Literal(b));
                        proof {
                            assert(toks_view(toks@) =~= toks_view(old_toks).push(
                                GToken::Literal(b),
                            ));
                        }
                    }
                },
                ParsePhase::ClassStart => {
                    if b == NEGATE {
                        phase = ParsePhase::ClassFirst;
                        negated = true;
                    } else {
                        phase = ParsePhase::ClassBody;
                        negated = false;
                        items = Vec::new();
                        prev = Some(b);
                        dash = false;
                        proof {
                            assert(items@ =~= Seq::<ClassItem>::empty());
                        }
                    }
                },
                ParsePhase::ClassFirst => {
                    phase = ParsePhase::ClassBody;
                    items = Vec::new();
                    prev = Some(b);
                    dash = false;
                    proof {
                        assert(items@ =~= Seq::<ClassItem>::empty());
                    }
                },
                ParsePhase::ClassBody => {
                    match prev {
                        Some(p) => {
                            if dash {
                                if b == CLOSE_CLASS {
                                    let ghost old_toks = toks@;
                                    items.push(ClassItem::Single(p));
                                    items.push(ClassItem::Single(RANGE_DASH));
                                    let ghost done_items = items@;
                                    toks.push(Token::Class { negated, items });
                                    items = Vec::new();
                                    phase = ParsePhase::Outside;
                                    proof {
                                        assert(toks_view(toks@) =~= toks_view(old_toks).push(
                                            GToken::Class { negated, items: done_items },
                                        ));
                                    }
                                } else {
                                    items.push(ClassItem::Range(p, b));
                                    prev = None;
                                    dash = false;
                                }
                            } else {
                                if b == CLOSE_CLASS {
                                    let ghost old_toks = toks@;
                                    items.push(ClassItem::Single(p));
                                    let ghost done_items = items@;
                                    toks.push(Token::Class { negated, items });
                                    items = Vec::new();
                                    phase = ParsePhase::Outside;
                                    proof {
                                        assert(toks_view(toks@) =~= toks_view(old_toks).push(
                                            GToken::Class { negated, items: done_items },
                                        ));
                                    }
                                } else if b == RANGE_DASH {
                                    dash = true;
                                } else {
                                    items.push(ClassItem::Single(p));
                                    prev = Some(b);
                                }
                            }
                        },
                        None => {
                            if b == CLOSE_CLASS {
                                let ghost old_toks = toks@;
                                let ghost done_items = items@;
                                toks.push(Token::Class { negated, items });
                                items = Vec::new();
                                phase = ParsePhase::Outside;
                                proof {
                                    assert(toks_view(toks@) =~= toks_view(old_toks).push(
                                        GToken::Class { negated, items: done_items },
                                    ));
                                }
                            } else {
                                prev = Some(b);
                                dash = false;
                            }
                        },
                    }
                },
            }
            i = i + 1;
        }
        proof {
            assert(pat@.take(pat@.len() as int) =~= pat@);
        }
        match phase {
            ParsePhase::Outside => Ok(Pattern { toks }),
            _ => Err(PatternError::UnclosedClass),
        }
    }

    /// Test a candidate file name against the pattern.
    pub fn matches(&self, name: &Vec<u8>) -> (r: bool)
        ensures
            r == self.spec_matches(name@),
    {
        match_from(&self.toks, 0, name, 0)
    }
}

/// Whether any member of the class covers `b`.
fn class_match(items: &Vec<ClassItem>, b: u8) -> (r: bool)
    ensures
        r == class_contains(items@, b),
{
    let mut i: usize = 0;
    while i < items.len()
        invariant
            i <= items.len(),
            forall|k: int| 0 <= k < i ==> !class_item_matches(items@[k], b),
        decreases items.len() - i,
    {
        let hit: bool = match items[i] {
            ClassItem::Single(c) => b == c,
            ClassItem::Range(lo, hi) => lo <= b && b <= hi,
        };
        if hit {
            return true;
        }
        i = i + 1;
    }
    false
}

/// Match tokens from `ti` against name bytes from `si`, exactly as
/// `glob_match_from` relates them.
fn match_from(toks: &Vec<Token>, ti: usize, name: &Vec<u8>, si: usize) -> (r: bool)
    requires
        ti <= toks@.len(),
        si <= name@.len(),
    ensures
        r == glob_match_from(toks_view(toks@), ti as nat, name@, si as nat),
    decreases toks@.len() - ti, name@.len() - si,
{
    proof {
        if ti < toks@.len() {
            assert(toks_view(toks@)[ti as int] == toks@[ti as int]@);
        }
    }
    if ti == toks.len() {
        si == name.len()
    } else {
        match &toks[ti] {
            Token::AnySeq => {
                if match_from(toks, ti + 1, name, si) {
                    true
                } else {
                    si < name.len() && match_from(toks, ti, name, si + 1)
                }
            },
            Token::Literal(c) => si < name.len() && name[si] == *c && match_from(
                toks,
                ti + 1,
                name,
                si + 1,
            ),
            Token::AnyChar => si < name.len() && match_from(toks, ti + 1, name, si + 1),
            Token::Class { negated, items } => si < name.len() && (class_match(items, name[si])
                != *negated) && match_from(toks, ti + 1, name, si + 1),
        }
    }
}

} // verus!
