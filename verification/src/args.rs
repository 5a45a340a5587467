//! The argument builder: turning user-supplied free text, or a vetted
//! preset, into the list of literal argument tokens for the external tool.
//!
//! The text is split with POSIX shell-word rules — unquoted whitespace
//! separates words, `'...'` groups are fully literal, `"..."` groups are
//! literal except for backslash escapes of `"`, `\`, `$` and a backtick, and
//! an unquoted backslash makes the next character literal. The resulting
//! tokens are handed to the child process as an argument vector and are
//! never interpreted by a shell, so the quoting syntax decides only how the
//! text falls apart into literal arguments.

use vstd::prelude::*;

use crate::error::{CoreError, TokenizeError};
use crate::text::{assoc_lookup, spec_assoc_lookup};
use vstd::string::{StrSliceExecFns, StringExecFns};

verus! {

/// Unquoted characters that separate words.
pub open spec fn is_space(c: char) -> bool {
    c == ' ' || c == '\t' || c == '\n' || c == '\r'
}

/// Checks `is_space` on a real character.
fn is_space_char(c: char) -> (r: bool)
    ensures
        r == is_space(c),
{
    c == ' ' || c == '\t' || c == '\n' || c == '\r'
}

/// Where in the quoting grammar the tokenizer stands.
#[derive(Clone, Copy, Debug, PartialEq, Eq, Structural)]
pub enum LexMode {
    /// Outside any quotes.
    Normal,
    /// Inside a `'...'` group.
    InSingle,
    /// Inside a `"..."` group.
    InDouble,
    /// Directly after a backslash, outside any quotes.
    EscNormal,
    /// Directly after a backslash, inside a `"..."` group.
    EscDouble,
}

/// The tokenizer's whole state: its mode, the word collected so far, whether
/// a word is in progress at all, and the words already finished.
pub struct LexState {
    pub mode: LexMode,
    pub cur: Seq<char>,
    pub started: bool,
    pub toks: Seq<Seq<char>>,
}

/// The state in which tokenizing starts.
pub open spec fn lex_init() -> LexState {
    LexState { mode: LexMode::Normal, cur: Seq::empty(), started: false, toks: Seq::empty() }
}

/// One character of progress through the quoting grammar.
pub open spec fn lex_step(st: LexState, c: char) -> LexState {
    match st.mode {
        LexMode::Normal => if is_space(c) {
            if st.started {
                LexState {
                    mode: LexMode::Normal,
                    cur: Seq::empty(),
                    started: false,
                    toks: st.toks.push(st.cur),
                }
            } else {
                st
            }
        } else if c == '\'' {
            LexState { mode: LexMode::InSingle, cur: st.cur, started: true, toks: st.toks }
        } else if c == '"' {
            LexState { mode: LexMode::InDouble, cur: st.cur, started: true, toks: st.toks }
        } else if c == '\\' {
            LexState { mode: LexMode::EscNormal, cur: st.cur, started: true, toks: st.toks }
        } else {
            LexState { mode: LexMode::Normal, cur: st.cur.push(c), started: true, toks: st.toks }
        },
        LexMode::InSingle => if c == '\'' {
            LexState { mode: LexMode::Normal, cur: st.cur, started: st.started, toks: st.toks }
        } else {
            LexState {
                mode: LexMode::InSingle,
                cur: st.cur.push(c),
                started: st.started,
                toks: st.toks,
            }
        },
        LexMode::InDouble => if c == '"' {
            LexState { mode: LexMode::Normal, cur: st.cur, started: st.started, toks: st.toks }
        } else if c == '\\' {
            LexState { mode: LexMode::EscDouble, cur: st.cur, started: st.started, toks: st.toks }
        } else {
            LexState {
                mode: LexMode::InDouble,
                cur: st.cur.push(c),
                started: st.started,
                toks: st.toks,
            }
        },
        LexMode::EscNormal => LexState {
            mode: LexMode::Normal,
            cur: st.cur.push(c),
            started: st.started,
            toks: st.toks,
        },
        LexMode::EscDouble => if c == '"' || c == '\\' || c == '$' || c == '`' {
            LexState {
                mode: LexMode::InDouble,
                cur: st.cur.push(c),
                started: st.started,
                toks: st.toks,
            }
        } else {
            LexState {
                mode: LexMode::InDouble,
                cur: st.cur.push('\\').push(c),
                started: st.started,
                toks: st.toks,
            }
        },
    }
}

/// The tokenizer run over a whole character sequence.
pub open spec fn lex_run(st: LexState, s: Seq<char>) -> LexState
    decreases s.len(),
{
    if s.len() == 0 {
        st
    } else {
        lex_run(lex_step(st, s[0]), s.skip(1))
    }
}

/// What a finished run means: in `Normal` mode the words are complete (with
/// the word still in progress, if any, as the last one); any other mode
/// means the input ended inside a quote or an escape.
pub open spec fn lex_finish(st: LexState) -> Result<Seq<Seq<char>>, TokenizeError> {
    match st.mode {
        LexMode::Normal => Ok(
            if st.started {
                st.toks.push(st.cur)
            } else {
                st.toks
            },
        ),
        LexMode::InSingle => Err(TokenizeError::UnterminatedSingleQuote),
        LexMode::InDouble => Err(TokenizeError::UnterminatedDoubleQuote),
        LexMode::EscNormal => Err(TokenizeError::DanglingEscape),
        LexMode::EscDouble => Err(TokenizeError::UnterminatedDoubleQuote),
    }
}

/// The tokens of an argument string, or why it has none.
pub open spec fn spec_tokenize(s: Seq<char>) -> Result<Seq<Seq<char>>, TokenizeError> {
    lex_finish(lex_run(lex_init(), s))
}

/// Running the tokenizer over a concatenation runs it over both parts in
/// turn.
proof fn lemma_lex_run_concat(st: LexState, a: Seq<char>, b: Seq<char>)
    ensures
        lex_run(st, a + b) == lex_run(lex_run(st, a), b),
    decreases a.len(),
{
    if a.len() == 0 {
        assert(a + b =~= b);
    } else {
        assert((a + b)[0] == a[0]);
        assert((a + b).skip(1) =~= a.skip(1) + b);
        lemma_lex_run_concat(lex_step(st, a[0]), a.skip(1), b);
    }
}

/// A single character is a single step.
proof fn lemma_lex_run_one(st: LexState, c: char)
    ensures
        lex_run(st, seq![c]) == lex_step(st, c),
{
    assert(seq![c].skip(1) =~= Seq::<char>::empty());
    assert(lex_run(st, seq![c]) == lex_run(lex_step(st, c), seq![c].skip(1)));
}

/// Extending the input by one character extends the run by one step.
proof fn lemma_lex_run_snoc(st: LexState, a: Seq<char>, c: char)
    ensures
        lex_run(st, a.push(c)) == lex_step(lex_run(st, a), c),
{
    assert(a.push(c) =~= a + seq![c]);
    lemma_lex_run_concat(st, a, seq![c]);
    lemma_lex_run_one(lex_run(st, a), c);
}

/// Splits the tokenizer's argument string into its words. The result is
/// exactly `spec_tokenize` of the input.
pub fn tokenize(s: &str) -> (r: Result<Vec<String>, TokenizeError>)
    ensures
        spec_tokenize(s@) matches Ok(ts) ==> (r matches Ok(v) && v.deep_view() == ts),
        spec_tokenize(s@) matches Err(e) ==> r == Err::<Vec<String>, TokenizeError>(e),
{
    let len = s.unicode_len();
    let mut mode = LexMode::Normal;
    let mut cur = String::new();
    let mut started = false;
    let mut toks: Vec<String> = Vec::new();
    let mut i: usize = 0;
    while i < len
        invariant
            i <= len,
            len == s@.len(),
            lex_run(lex_init(), s@.take(i as int)).mode == mode,
            lex_run(lex_init(), s@.take(i as int)).cur == cur@,
            lex_run(lex_init(), s@.take(i as int)).started == started,
            lex_run(lex_init(), s@.take(i as int)).toks == toks.deep_view(),
        decreases len - i,
    {
        let ghost st_pre = lex_run(lex_init(), s@.take(i as int));
        let c = s.get_char(i);
        proof {
            assert(s@.take(i as int).push(s@[i as int]) =~= s@.take(i + 1 as int));
            lemma_lex_run_snoc(lex_init(), s@.take(i as int), s@[i as int]);
        }
        match mode {
            LexMode::Normal => {
                if is_space_char(c) {
                    if started {
                        toks.push(cur);
                        cur = String::new();
                        started = false;
                        proof {
                            assert(toks.deep_view() =~= st_pre.toks.push(st_pre.cur));
                        }
                    }
                } else if c == '\'' {
                    mode = LexMode::InSingle;
                    started = true;
                } else if c == '"' {
                    mode = LexMode::InDouble;
                    started = true;
                } else if c == '\\' {
                    mode = LexMode::EscNormal;
                    started = true;
                } else {
                    cur.push(c);
                    started = true;
                }
            },
            LexMode::InSingle => {
                if c == '\'' {
                    mode = LexMode::Normal;
                } else {
                    cur.push(c);
                }
            },
            LexMode::InDouble => {
                if c == '"' {
                    mode = LexMode::Normal;
                } else if c == '\\' {
                    mode = LexMode::EscDouble;
                } else {
                    cur.push(c);
                }
            },
            LexMode::EscNormal => {
                cur.push(c);
                mode = LexMode::Normal;
            },
            LexMode::EscDouble => {
                if c == '"' || c == '\\' || c == '$' || c == '`' {
                    cur.push(c);
                } else {
                    cur.push('\\');
                    cur.push(c);
                }
                mode = LexMode::InDouble;
            },
        }
        i += 1;
    }
    proof {
        assert(s@.take(len as int) =~= s@);
    }
    let ghost st_end = lex_run(lex_init(), s@);
    match mode {
        LexMode::Normal => {
            if started {
                toks.push(cur);
                proof {
                    assert(toks.deep_view() =~= st_end.toks.push(st_end.cur));
                }
            }
            Ok(toks)
        },
        LexMode::InSingle => Err(TokenizeError::UnterminatedSingleQuote),
        LexMode::InDouble => Err(TokenizeError::UnterminatedDoubleQuote),
        LexMode::EscNormal => Err(TokenizeError::DanglingEscape),
        LexMode::EscDouble => Err(TokenizeError::UnterminatedDoubleQuote),
    }
}

/// How one character of a token is written inside a single-quoted group: a
/// single quote becomes `'\''` (close, escaped quote, reopen); every other
/// character stands for itself.
pub open spec fn quote_escape(c: char) -> Seq<char> {
    if c == '\'' {
        seq!['\'', '\\', '\'', '\'']
    } else {
        seq![c]
    }
}

/// The body of a token's single-quoted form.
pub open spec fn quote_body(t: Seq<char>) -> Seq<char>
    decreases t.len(),
{
    if t.len() == 0 {
        Seq::empty()
    } else {
        quote_body(t.drop_last()) + quote_escape(t.last())
    }
}

/// The single-quoted form of one token.
pub open spec fn spec_quote_one(t: Seq<char>) -> Seq<char> {
    seq!['\''] + quote_body(t) + seq!['\'']
}

/// All tokens in single-quoted form, joined by single spaces.
pub open spec fn spec_requote(toks: Seq<Seq<char>>) -> Seq<char>
    decreases toks.len(),
{
    if toks.len() == 0 {
        Seq::empty()
    } else if toks.len() == 1 {
        spec_quote_one(toks[0])
    } else {
        spec_requote(toks.drop_last()) + seq![' '] + spec_quote_one(toks.last())
    }
}

/// Prepending one character to the input prepends one step to the run.
proof fn lemma_lex_run_cons(st: LexState, c: char, rest: Seq<char>)
    ensures
        lex_run(st, seq![c] + rest) == lex_run(lex_step(st, c), rest),
{
    assert((seq![c] + rest)[0] == c);
    assert((seq![c] + rest).skip(1) =~= rest);
    assert(lex_run(st, seq![c] + rest) == lex_run(
        lex_step(st, (seq![c] + rest)[0]),
        (seq![c] + rest).skip(1),
    ));
}

/// Inside a single-quoted group, the quoted body of a token adds exactly
/// the token's characters to the word being collected.
proof fn lemma_run_quote_body(st: LexState, t: Seq<char>)
    requires
        st.mode is InSingle,
        st.started,
    ensures
        lex_run(st, quote_body(t)).mode is InSingle,
        lex_run(st, quote_body(t)).started,
        lex_run(st, quote_body(t)).cur == st.cur + t,
        lex_run(st, quote_body(t)).toks == st.toks,
    decreases t.len(),
{
    if t.len() == 0 {
        assert(quote_body(t) =~= Seq::<char>::empty());
        assert(st.cur + t =~= st.cur);
    } else {
        lemma_run_quote_body(st, t.drop_last());
        lemma_lex_run_concat(st, quote_body(t.drop_last()), quote_escape(t.last()));
        let e1 = lex_run(st, quote_body(t.drop_last()));
        let c = t.last();
        if c == '\'' {
            let r1 = seq!['\\', '\'', '\''];
            let r2 = seq!['\'', '\''];
            let r3 = seq!['\''];
            assert(quote_escape(c) =~= seq!['\''] + r1);
            lemma_lex_run_cons(e1, '\'', r1);
            let e2 = lex_step(e1, '\'');
            assert(r1 =~= seq!['\\'] + r2);
            lemma_lex_run_cons(e2, '\\', r2);
            let e3 = lex_step(e2, '\\');
            assert(r2 =~= seq!['\''] + r3);
            lemma_lex_run_cons(e3, '\'', r3);
            let e4 = lex_step(e3, '\'');
            lemma_lex_run_one(e4, '\'');
            assert(e1.cur.push('\'') =~= st.cur + t);
        } else {
            lemma_lex_run_one(e1, c);
            assert(e1.cur.push(c) =~= st.cur + t);
        }
    }
}

/// From a state between words, the single-quoted form of one token is read
/// as exactly that token, still open as the word in progress.
proof fn lemma_run_quote_one(st: LexState, t: Seq<char>)
    requires
        st.mode is Normal,
        !st.started,
        st.cur == Seq::<char>::empty(),
    ensures
        lex_run(st, spec_quote_one(t)).mode is Normal,
        lex_run(st, spec_quote_one(t)).started,
        lex_run(st, spec_quote_one(t)).cur == t,
        lex_run(st, spec_quote_one(t)).toks == st.toks,
{
    assert(spec_quote_one(t) =~= seq!['\''] + (quote_body(t) + seq!['\'']));
    lemma_lex_run_cons(st, '\'', quote_body(t) + seq!['\'']);
    let e1 = lex_step(st, '\'');
    lemma_lex_run_concat(e1, quote_body(t), seq!['\'']);
    lemma_run_quote_body(e1, t);
    let e2 = lex_run(e1, quote_body(t));
    lemma_lex_run_one(e2, '\'');
    assert(e1.cur + t =~= t);
}

/// From a state between words, the re-quoted form of a token list is read
/// as exactly those tokens: all but the last become finished words, and the
/// last stays open as the word in progress.
proof fn lemma_run_requote(st: LexState, toks: Seq<Seq<char>>)
    requires
        st.mode is Normal,
        !st.started,
        st.cur == Seq::<char>::empty(),
        toks.len() > 0,
    ensures
        lex_run(st, spec_requote(toks)).mode is Normal,
        lex_run(st, spec_requote(toks)).started,
        lex_run(st, spec_requote(toks)).cur == toks.last(),
        lex_run(st, spec_requote(toks)).toks == st.toks + toks.drop_last(),
    decreases toks.len(),
{
    if toks.len() == 1 {
        lemma_run_quote_one(st, toks[0]);
        assert(st.toks + toks.drop_last() =~= st.toks);
    } else {
        lemma_lex_run_concat(st, spec_requote(toks.drop_last()) + seq![' '], spec_quote_one(
            toks.last(),
        ));
        lemma_lex_run_concat(st, spec_requote(toks.drop_last()), seq![' ']);
        assert(spec_requote(toks) =~= (spec_requote(toks.drop_last()) + seq![' ']) + spec_quote_one(
            toks.last(),
        ));
        lemma_run_requote(st, toks.drop_last());
        let e1 = lex_run(st, spec_requote(toks.drop_last()));
        lemma_lex_run_one(e1, ' ');
        let e2 = lex_step(e1, ' ');
        assert(e2.toks =~= st.toks + toks.drop_last().drop_last() + seq![toks.drop_last().last()]);
        lemma_run_quote_one(e2, toks.last());
        assert(e2.toks =~= st.toks + toks.drop_last());
    }
}

/// Re-quoting round-trips through the tokenizer: the single-quoted, space
/// joined rendering of any token list tokenizes back to exactly that list.
pub proof fn lemma_requote_tokenize_round_trip(toks: Seq<Seq<char>>)
    ensures
        spec_tokenize(spec_requote(toks)) == Ok::<Seq<Seq<char>>, TokenizeError>(toks),
{
    if toks.len() == 0 {
        assert(spec_requote(toks) =~= Seq::<char>::empty());
        assert(lex_run(lex_init(), spec_requote(toks)) == lex_init());
        assert(spec_tokenize(spec_requote(toks))->Ok_0 =~= toks);
    } else {
        lemma_run_requote(lex_init(), toks);
        let e = lex_run(lex_init(), spec_requote(toks));
        assert(e.toks.push(e.cur) =~= toks);
    }
}

/// Tokenization is idempotent under re-tokenization of its own re-quoted
/// output: whenever an argument string tokenizes at all, re-quoting its
/// tokens and tokenizing again yields the same tokens.
pub proof fn lemma_tokenize_idempotent(s: Seq<char>)
    requires
        spec_tokenize(s) is Ok,
    ensures
        spec_tokenize(spec_requote(spec_tokenize(s)->Ok_0)) == spec_tokenize(s),
{
    lemma_requote_tokenize_round_trip(spec_tokenize(s)->Ok_0);
}

/// Renders tokens back into one argument string, each token single-quoted.
/// Tokenizing the result gives back exactly these tokens.
pub fn requote(tokens: &Vec<String>) -> (r: String)
    ensures
        r@ == spec_requote(tokens.deep_view()),
{
    let ghost dv = tokens.deep_view();
    let mut out = String::new();
    let mut k: usize = 0;
    while k < tokens.len()
        invariant
            k <= tokens.len(),
            dv == tokens.deep_view(),
            dv.len() == tokens@.len(),
            out@ == spec_requote(dv.take(k as int)),
        decreases tokens.len() - k,
    {
        if k > 0 {
            out.push(' ');
        }
        out.push('\'');
        let ghost base = out@;
        let t = &tokens[k];
        proof {
            assert(t@ == dv[k as int]);
        }
        let tlen = t.unicode_len();
        let mut j: usize = 0;
        while j < tlen
            invariant
                j <= tlen,
                tlen == t@.len(),
                out@ == base + quote_body(t@.take(j as int)),
            decreases tlen - j,
        {
            let c = t.get_char(j);
            let ghost before = out@;
            if c == '\'' {
                out.push('\'');
                out.push('\\');
                out.push('\'');
                out.push('\'');
            } else {
                out.push(c);
            }
            proof {
                assert(t@.take(j + 1 as int).drop_last() =~= t@.take(j as int));
                assert(t@.take(j + 1 as int).last() == t@[j as int]);
                assert(out@ =~= before + quote_escape(t@[j as int]));
                assert(out@ =~= base + quote_body(t@.take(j + 1 as int)));
            }
            j += 1;
        }
        out.push('\'');
        proof {
            assert(t@.take(tlen as int) =~= t@);
            assert(out@ =~= base + quote_body(t@) + seq!['\'']);
            if k == 0 {
                assert(dv.take(1int).len() == 1);
                assert(dv.take(1int)[0] == dv[0int]);
                assert(out@ =~= spec_quote_one(dv[0int]));
                assert(out@ =~= spec_requote(dv.take(1int)));
            } else {
                assert(dv.take(k + 1 as int).drop_last() =~= dv.take(k as int));
                assert(dv.take(k + 1 as int).last() == dv[k as int]);
                assert(out@ =~= spec_requote(dv.take(k as int)) + seq![' '] + spec_quote_one(
                    dv[k as int],
                ));
                assert(out@ =~= spec_requote(dv.take(k + 1 as int)));
            }
        }
        k += 1;
    }
    proof {
        assert(dv.take(tokens@.len() as int) =~= dv);
    }
    out
}

/// The canned argument strings, keyed by output type.
pub struct PresetTable {
    pub entries: Vec<(String, String)>,
}

impl PresetTable {
    /// The canned argument string for `key`, if the table has one.
    pub fn lookup(&self, key: &str) -> (r: Option<String>)
        ensures
            spec_assoc_lookup(self.entries@, key@) matches Some(t) ==> (r matches Some(s) && s@
                == t),
            spec_assoc_lookup(self.entries@, key@) is None ==> r is None,
    {
        assoc_lookup(&self.entries, key)
    }
}

/// The preset arguments that ship with the pipeline: one entry, for gif
/// output, carrying the palette filter arguments of the external tool.
pub fn default_presets() -> (r: PresetTable)
    ensures
        r.entries@.len() == 1,
        r.entries@[0].0@ == "gif"@,
        r.entries@[0].1@
            == "-filter_complex \"[0:v]split[x][p];[p]palettegen[p];[x][p]paletteuse\""@,
{
    let mut entries: Vec<(String, String)> = Vec::new();
    entries.push(
        (
            String::from_str("gif"),
            String::from_str(
                "-filter_complex \"[0:v]split[x][p];[p]palettegen[p];[x][p]paletteuse\"",
            ),
        ),
    );
    PresetTable { entries }
}

/// The view of an optional borrowed string.
pub open spec fn spec_opt_text(o: Option<&String>) -> Option<Seq<char>> {
    match o {
        Some(s) => Some(s@),
        None => None,
    }
}

/// Which argument text applies: explicit text always wins; otherwise the
/// preset for `preset_key`, when one was requested and the table has it;
/// otherwise there is none and the argument list is empty.
pub open spec fn spec_chosen_text(
    explicit: Option<Seq<char>>,
    preset_key: Option<Seq<char>>,
    entries: Seq<(String, String)>,
) -> Option<Seq<char>> {
    if explicit is Some {
        explicit
    } else if preset_key is Some {
        spec_assoc_lookup(entries, preset_key->0)
    } else {
        None
    }
}

/// Resolves the extra tool arguments. Explicit user text is tokenized; with
/// no explicit text, a requested preset is looked up and tokenized instead;
/// with neither, the argument list is empty. Malformed text is a user
/// error, reported as `ParseFailed` with the tokenizer's diagnosis.
pub fn build(
    explicit_args: Option<&String>,
    preset_key: Option<&String>,
    presets: &PresetTable,
) -> (r: Result<Vec<String>, CoreError>)
    ensures
        spec_chosen_text(spec_opt_text(explicit_args), spec_opt_text(preset_key), presets.entries@)
            is None ==> (r matches Ok(v) && v.deep_view() == Seq::<Seq<char>>::empty()),
        spec_chosen_text(spec_opt_text(explicit_args), spec_opt_text(preset_key), presets.entries@)
            matches Some(t) ==> (spec_tokenize(t) matches Ok(ts) ==> (r matches Ok(v)
            && v.deep_view() == ts)),
        spec_chosen_text(spec_opt_text(explicit_args), spec_opt_text(preset_key), presets.entries@)
            matches Some(t) ==> (spec_tokenize(t) matches Err(e) ==> r == Err::<
            Vec<String>,
            CoreError,
        >(CoreError::ParseFailed(e))),
{
    let chosen: Option<String> = match explicit_args {
        Some(s) => Some(s.clone()),
        None => match preset_key {
            Some(k) => presets.lookup(k.as_str()),
            None => None,
        },
    };
    match chosen {
        None => {
            let v: Vec<String> = Vec::new();
            proof {
                assert(v.deep_view() =~= Seq::<Seq<char>>::empty());
            }
            Ok(v)
        },
        Some(t) => match tokenize(t.as_str()) {
            Ok(v) => Ok(v),
            Err(e) => Err(CoreError::ParseFailed(e)),
        },
    }
}

} // verus!
