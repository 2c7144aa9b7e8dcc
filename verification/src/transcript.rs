//! Diarized transcript rendering.
//!
//! Final tokens accumulate permanently per speaker, in the order speakers
//! first appear; non-final tokens form a replaceable overlay.  Rendering
//! cleans technical tags out of the text, groups it by speaker, and formats
//! one line per speaker with capitalization and closing punctuation.

use vstd::prelude::*;
use vstd::string::StrSliceExecFns;
use vstd::string::StringExecFns;
use crate::text::{
    all_white, char_is_lowercase, char_to_uppercase_first, dec_str, is_blank, lowercase_char,
    push_char, trim_spec, trim_str, u64_to_dec, upper_char,
};

verus! {

/// One unit of transcribed text from the streaming service.  A missing
/// speaker tag and a missing language are kept as absent, so the fallback
/// rules can see them.
#[derive(Debug, Clone)]
pub struct Token {
    pub text: String,
    pub is_final: bool,
    pub speaker: Option<i64>,
    pub language: Option<String>,
}

/// The speaker a token is attributed to: its own tag, else the fallback,
/// else the unknown speaker `0`.
pub open spec fn spec_speaker_of(raw: Option<i64>, fallback: Option<i64>) -> i64 {
    match raw {
        Some(id) => id,
        None => match fallback {
            Some(f) => f,
            None => 0,
        },
    }
}

/// Resolves a token's speaker id against the fallback speaker.
pub fn extract_speaker_id(raw: Option<i64>, fallback: Option<i64>) -> (r: i64)
    ensures
        r == spec_speaker_of(raw, fallback),
{
    match raw {
        Some(id) => id,
        None => match fallback {
            Some(f) => f,
            None => 0,
        },
    }
}

/// The text with every non-overlapping occurrence of `p` removed, scanning
/// left to right.
pub open spec fn remove_all(s: Seq<char>, p: Seq<char>) -> Seq<char>
    decreases s.len(),
{
    if p.len() == 0 || s.len() == 0 {
        s
    } else if p.is_prefix_of(s) {
        remove_all(s.skip(p.len() as int), p)
    } else {
        seq![s[0]] + remove_all(s.drop_first(), p)
    }
}

/// Whether `p` occurs at position `i` of `s`.
fn match_at(s: &str, i: usize, p: &str) -> (r: bool)
    requires
        i <= s@.len(),
    ensures
        r == p@.is_prefix_of(s@.skip(i as int)),
{
    let slen = s.unicode_len();
    let plen = p.unicode_len();
    if plen > slen - i {
        assert(!p@.is_prefix_of(s@.skip(i as int)));
        return false;
    }
    let mut j: usize = 0;
    while j < plen
        invariant
            j <= plen,
            i + plen <= slen,
            slen == s@.len(),
            plen == p@.len(),
            forall|k: int| 0 <= k < j ==> s@[i + k] == p@[k],
        decreases plen - j,
    {
        if s.get_char(i + j) != p.get_char(j) {
            assert(s@.skip(i as int)[j as int] != p@[j as int]);
            return false;
        }
        j = j + 1;
    }
    proof {
        assert(p@ =~= s@.skip(i as int).subrange(0, p@.len() as int));
    }
    true
}

/// Removes every occurrence of a pattern from a string.
pub fn remove_occurrences(s: &str, p: &str) -> (r: String)
    requires
        p@.len() >= 1,
    ensures
        r@ == remove_all(s@, p@),
{
    let slen = s.unicode_len();
    let plen = p.unicode_len();
    let mut out = String::new();
    let mut i: usize = 0;
    proof {
        assert(s@.skip(0) =~= s@);
    }
    while i < slen
        invariant
            i <= slen,
            slen == s@.len(),
            plen == p@.len(),
            plen >= 1,
            out@ + remove_all(s@.skip(i as int), p@) == remove_all(s@, p@),
        decreases slen - i,
    {
        let ghost rest = s@.skip(i as int);
        if match_at(s, i, p) {
            proof {
                assert(rest.skip(plen as int) =~= s@.skip(i as int + plen as int));
            }
            i = i + plen;
        } else {
            let c = s.substring_char(i, i + 1);
            out.append(c);
            proof {
                assert(rest.drop_first() =~= s@.skip(i as int + 1));
                assert(rest[0] == s@[i as int]);
                assert(c@ =~= seq![s@[i as int]]);
                assert(out@ + remove_all(s@.skip(i as int + 1), p@) == remove_all(s@, p@));
            }
            i = i + 1;
        }
    }
    proof {
        assert(s@.skip(slen as int) =~= Seq::<char>::empty());
        assert(out@ + Seq::<char>::empty() =~= out@);
    }
    out
}

/// Index of the first occurrence of `c`, or `-1`.
pub open spec fn index_of_first(s: Seq<char>, c: char) -> int
    decreases s.len(),
{
    if s.len() == 0 {
        -1
    } else if s[0] == c {
        0
    } else {
        let r = index_of_first(s.drop_first(), c);
        if r < 0 {
            -1int
        } else {
            r + 1
        }
    }
}

proof fn lemma_index_of_first(s: Seq<char>, c: char, j: int)
    requires
        0 <= j <= s.len(),
        forall|k: int| 0 <= k < j ==> s[k] != c,
        j < s.len() ==> s[j] == c,
    ensures
        j < s.len() ==> index_of_first(s, c) == j,
        j == s.len() ==> index_of_first(s, c) == -1,
    decreases s.len(),
{
    if s.len() > 0 {
        if j == 0 {
        } else {
            let d = s.drop_first();
            assert(forall|k: int| 0 <= k < j - 1 ==> d[k] != c);
            lemma_index_of_first(d, c, j - 1);
        }
    }
}

/// The text with every delimited span removed: at each `open` that some
/// later `close` answers, everything through the first such `close` goes;
/// an unanswered `open` stays.
pub open spec fn strip_delimited(s: Seq<char>, open: char, close: char) -> Seq<char>
    decreases s.len(),
    via strip_delimited_decreases
{
    if s.len() == 0 {
        s
    } else if s[0] == open && index_of_first(s.drop_first(), close) >= 0 {
        strip_delimited(
            s.drop_first().skip(index_of_first(s.drop_first(), close) + 1),
            open,
            close,
        )
    } else {
        seq![s[0]] + strip_delimited(s.drop_first(), open, close)
    }
}

proof fn lemma_index_of_first_below(s: Seq<char>, c: char)
    ensures
        index_of_first(s, c) < s.len(),
    decreases s.len(),
{
    if s.len() > 0 && s[0] != c {
        lemma_index_of_first_below(s.drop_first(), c);
    }
}

#[via_fn]
proof fn strip_delimited_decreases(s: Seq<char>, open: char, close: char) {
    if s.len() > 0 && s[0] == open && index_of_first(s.drop_first(), close) >= 0 {
        lemma_index_of_first_below(s.drop_first(), close);
    }
}

/// Index of the first `c` at or after `from`, if any.
fn find_char_from(s: &str, from: usize, c: char) -> (r: Option<usize>)
    requires
        from <= s@.len(),
    ensures
        r matches Some(j) ==> from <= j < s@.len() && s@[j as int] == c && forall|k: int|
            from <= k < j ==> s@[k] != c,
        r is None ==> forall|k: int| from <= k < s@.len() ==> s@[k] != c,
{
    let len = s.unicode_len();
    let mut j: usize = from;
    while j < len
        invariant
            from <= j <= len,
            len == s@.len(),
            forall|k: int| from <= k < j ==> s@[k] != c,
        decreases len - j,
    {
        if s.get_char(j) == c {
            return Some(j);
        }
        j = j + 1;
    }
    None
}

/// Removes every `open`..`close` span from a string.
pub fn strip_delimited_spans(s: &str, open: char, close: char) -> (r: String)
    ensures
        r@ == strip_delimited(s@, open, close),
{
    let slen = s.unicode_len();
    let mut out = String::new();
    let mut i: usize = 0;
    proof {
        assert(s@.skip(0) =~= s@);
    }
    while i < slen
        invariant
            i <= slen,
            slen == s@.len(),
            out@ + strip_delimited(s@.skip(i as int), open, close) == strip_delimited(
                s@,
                open,
                close,
            ),
        decreases slen - i,
    {
        let ghost rest = s@.skip(i as int);
        let ch = s.get_char(i);
        assert(rest[0] == ch);
        let mut skipped = false;
        if ch == open {
            match find_char_from(s, i + 1, close) {
                Some(j) => {
                    proof {
                        let d = rest.drop_first();
                        assert(d =~= s@.skip(i as int + 1));
                        assert(forall|k: int| 0 <= k < j - i - 1 ==> d[k] != close);
                        assert(d[j - i - 1] == close);
                        lemma_index_of_first(d, close, j - i - 1);
                        assert(d.skip(j - i) =~= s@.skip(j as int + 1));
                    }
                    i = j + 1;
                    skipped = true;
                },
                None => {
                    proof {
                        let d = rest.drop_first();
                        assert(d =~= s@.skip(i as int + 1));
                        assert(forall|k: int| 0 <= k < d.len() ==> d[k] != close);
                        lemma_index_of_first(d, close, d.len() as int);
                    }
                },
            }
        }
        if !skipped {
            proof {
                if rest[0] == open {
                    assert(index_of_first(rest.drop_first(), close) < 0);
                }
            }
            let c1 = s.substring_char(i, i + 1);
            out.append(c1);
            proof {
                assert(rest.drop_first() =~= s@.skip(i as int + 1));
                assert(c1@ =~= seq![s@[i as int]]);
                assert(out@ + strip_delimited(s@.skip(i as int + 1), open, close)
                    == strip_delimited(s@, open, close));
            }
            i = i + 1;
        }
    }
    proof {
        assert(s@.skip(slen as int) =~= Seq::<char>::empty());
        assert(out@ + Seq::<char>::empty() =~= out@);
    }
    out
}

/// The cleaning the renderer applies to token text: the fixed technical
/// markers are removed first, then every angle-bracket tag, then every
/// square-bracket tag, preserving all other spacing.
pub open spec fn spec_clean(s: Seq<char>) -> Seq<char> {
    let lit = remove_all(
        remove_all(
            remove_all(
                remove_all(
                    remove_all(
                        remove_all(
                            remove_all(
                                remove_all(remove_all(s, "<END>"@), "<UNK>"@),
                                "<SIL>"@,
                            ),
                            "<NOISE>"@,
                        ),
                        "</s>"@,
                    ),
                    "<s>"@,
                ),
                "[NOISE]"@,
            ),
            "[SILENCE]"@,
        ),
        "[UNKNOWN]"@,
    );
    strip_delimited(strip_delimited(lit, '<', '>'), '[', ']')
}

/// Cleans transcript text: removes technical tags and markers while
/// preserving the original spacing.
pub fn clean_transcript_text_preserve_spacing(text: &str) -> (r: String)
    ensures
        r@ == spec_clean(text@),
{
    proof {
        reveal_strlit("<END>");
        reveal_strlit("<UNK>");
        reveal_strlit("<SIL>");
        reveal_strlit("<NOISE>");
        reveal_strlit("</s>");
        reveal_strlit("<s>");
        reveal_strlit("[NOISE]");
        reveal_strlit("[SILENCE]");
        reveal_strlit("[UNKNOWN]");
    }
    let s1 = remove_occurrences(text, "<END>");
    let s2 = remove_occurrences(s1.as_str(), "<UNK>");
    let s3 = remove_occurrences(s2.as_str(), "<SIL>");
    let s4 = remove_occurrences(s3.as_str(), "<NOISE>");
    let s5 = remove_occurrences(s4.as_str(), "</s>");
    let s6 = remove_occurrences(s5.as_str(), "<s>");
    let s7 = remove_occurrences(s6.as_str(), "[NOISE]");
    let s8 = remove_occurrences(s7.as_str(), "[SILENCE]");
    let s9 = remove_occurrences(s8.as_str(), "[UNKNOWN]");
    let s10 = strip_delimited_spans(s9.as_str(), '<', '>');
    strip_delimited_spans(s10.as_str(), '[', ']')
}

/// Whether a line already ends in punctuation that needs no added period.
pub open spec fn punct_char(c: char) -> bool {
    c == '.' || c == '!' || c == '?' || c == ':' || c == ';' || c == ','
}

/// The formatted transcript line: trimmed, first letter capitalized, and a
/// period appended when no closing punctuation is present.  Empty after
/// trimming stays empty.
pub open spec fn spec_format_line(s: Seq<char>) -> Seq<char> {
    let t = trim_spec(s);
    if t.len() == 0 {
        t
    } else {
        let cap = if lowercase_char(t[0]) {
            seq![upper_char(t[0])] + t.drop_first()
        } else {
            t
        };
        if punct_char(cap.last()) {
            cap
        } else {
            cap.push('.')
        }
    }
}

/// Formats one speaker's accumulated text as a transcript line.
pub fn format_transcript_line(text: &str) -> (r: String)
    ensures
        r@ == spec_format_line(text@),
{
    let trimmed = trim_str(text);
    let tlen = trimmed.as_str().unicode_len();
    if tlen == 0 {
        return trimmed;
    }
    let first = trimmed.as_str().get_char(0);
    let mut formatted: String;
    if char_is_lowercase(first) {
        let up = char_to_uppercase_first(first);
        let mut head = String::new();
        push_char(&mut head, up);
        let rest = trimmed.as_str().substring_char(1, tlen);
        head.append(rest);
        proof {
            assert(head@ =~= seq![upper_char(trim_spec(text@)[0])] + trim_spec(text@).drop_first());
        }
        formatted = head;
    } else {
        formatted = trimmed;
    }
    let flen = formatted.as_str().unicode_len();
    let last = formatted.as_str().get_char(flen - 1);
    if !(last == '.' || last == '!' || last == '?' || last == ':' || last == ';' || last == ',') {
        push_char(&mut formatted, '.');
    }
    formatted
}

/// One speaker's accumulated state: the first language a final token gave
/// the speaker, and the concatenated cleaned text.
pub struct SpeakerEntry {
    pub speaker: i64,
    pub language: Option<String>,
    pub text: String,
}

/// The mathematical content of a speaker entry.
pub ghost struct GroupView {
    pub speaker: int,
    pub language: Option<Seq<char>>,
    pub text: Seq<char>,
}

impl View for SpeakerEntry {
    type V = GroupView;

    open spec fn view(&self) -> GroupView {
        GroupView {
            speaker: self.speaker as int,
            language: match self.language {
                Some(l) => Some(l@),
                None => None,
            },
            text: self.text@,
        }
    }
}

pub open spec fn groups_view(g: Seq<SpeakerEntry>) -> Seq<GroupView> {
    g.map(|i: int, e: SpeakerEntry| e@)
}

/// Index of the entry for a speaker, or `-1`.
pub open spec fn index_of_speaker(g: Seq<GroupView>, sp: int) -> int
    decreases g.len(),
{
    if g.len() == 0 {
        -1
    } else if g[0].speaker == sp {
        0
    } else {
        let r = index_of_speaker(g.drop_first(), sp);
        if r < 0 {
            -1int
        } else {
            r + 1
        }
    }
}

proof fn lemma_index_of_speaker(g: Seq<GroupView>, sp: int, j: int)
    requires
        0 <= j <= g.len(),
        forall|k: int| 0 <= k < j ==> g[k].speaker != sp,
        j < g.len() ==> g[j].speaker == sp,
    ensures
        j < g.len() ==> index_of_speaker(g, sp) == j,
        j == g.len() ==> index_of_speaker(g, sp) == -1,
    decreases g.len(),
{
    if g.len() > 0 && j != 0 {
        let d = g.drop_first();
        assert(forall|k: int| 0 <= k < j - 1 ==> d[k].speaker != sp);
        lemma_index_of_speaker(d, sp, j - 1);
    }
}

proof fn lemma_index_of_speaker_in_range(g: Seq<GroupView>, sp: int)
    ensures
        index_of_speaker(g, sp) < g.len(),
        index_of_speaker(g, sp) >= 0 ==> g[index_of_speaker(g, sp)].speaker == sp,
    decreases g.len(),
{
    if g.len() > 0 && g[0].speaker != sp {
        lemma_index_of_speaker_in_range(g.drop_first(), sp);
    }
}

/// Text lands on the speaker's existing entry, whose language stands once
/// set; a new speaker gets a fresh entry at the end, so the entry order is
/// the speakers' first-appearance order.
pub open spec fn spec_upsert(
    g: Seq<GroupView>,
    sp: int,
    lang: Option<Seq<char>>,
    text: Seq<char>,
) -> Seq<GroupView> {
    let i = index_of_speaker(g, sp);
    if i >= 0 {
        g.update(
            i,
            GroupView {
                speaker: sp,
                language: if g[i].language is Some {
                    g[i].language
                } else {
                    lang
                },
                text: g[i].text + text,
            },
        )
    } else {
        g.push(GroupView { speaker: sp, language: lang, text })
    }
}

/// A token's language, with the placeholder for a missing one.
pub open spec fn spec_lang_of(t: Token) -> Seq<char> {
    match t.language {
        Some(l) => l@,
        None => "?"@,
    }
}

/// Accumulation of the final tokens: each token with any text left after
/// cleaning appends to its speaker's entry and becomes the fallback
/// speaker; a token without a speaker tag goes to the unknown speaker.
pub open spec fn spec_accum_final(
    g: Seq<GroupView>,
    last: Option<i64>,
    toks: Seq<Token>,
) -> (Seq<GroupView>, Option<i64>)
    decreases toks.len(),
{
    if toks.len() == 0 {
        (g, last)
    } else {
        let prev = spec_accum_final(g, last, toks.drop_last());
        let t = toks.last();
        let cleaned = spec_clean(t.text@);
        if all_white(cleaned) {
            prev
        } else {
            let sp = spec_speaker_of(t.speaker, None);
            (spec_upsert(prev.0, sp as int, Some(spec_lang_of(t)), cleaned), Some(sp))
        }
    }
}

/// Accumulation of the non-final overlay: untagged tokens fall back to the
/// last final speaker, and no language is recorded.
pub open spec fn spec_accum_nonfinal(
    g: Seq<GroupView>,
    last: Option<i64>,
    toks: Seq<Token>,
) -> Seq<GroupView>
    decreases toks.len(),
{
    if toks.len() == 0 {
        g
    } else {
        let g1 = spec_accum_nonfinal(g, last, toks.drop_last());
        let t = toks.last();
        let cleaned = spec_clean(t.text@);
        if all_white(cleaned) {
            g1
        } else {
            let sp = spec_speaker_of(t.speaker, last);
            spec_upsert(g1, sp as int, None, cleaned)
        }
    }
}

/// The speaker label: numbered for known speakers, bare for the unknown
/// speaker `0`.
pub open spec fn spec_label(sp: int) -> Seq<char> {
    if sp > 0 {
        "Speaker "@ + dec_str(sp) + ":"@
    } else {
        "Speaker:"@
    }
}

/// One rendered transcript line.
pub open spec fn spec_group_line(g: GroupView) -> Seq<char> {
    spec_label(g.speaker) + " ["@ + (match g.language {
        Some(l) => l,
        None => "?"@,
    }) + "] "@ + spec_format_line(g.text)
}

/// The rendered lines in entry order, separated by line breaks; entries
/// whose text formats to nothing are left out.
pub open spec fn spec_render_groups(gs: Seq<GroupView>) -> Seq<char>
    decreases gs.len(),
{
    if gs.len() == 0 {
        Seq::<char>::empty()
    } else {
        let pre = spec_render_groups(gs.drop_last());
        let g = gs.last();
        if spec_format_line(g.text).len() == 0 {
            pre
        } else if pre.len() == 0 {
            spec_group_line(g)
        } else {
            pre + "\n"@ + spec_group_line(g)
        }
    }
}

/// The fully rendered transcript, with the trailing separator line when any
/// text was rendered.
pub open spec fn spec_render(finals: Seq<Token>, nonfinals: Seq<Token>) -> Seq<char> {
    let acc = spec_accum_final(Seq::<GroupView>::empty(), None, finals);
    let gs = spec_accum_nonfinal(acc.0, acc.1, nonfinals);
    let body = spec_render_groups(gs);
    if body.len() == 0 {
        body
    } else {
        body + "\n"@ + "==============================="@
    }
}

/// Finds the entry for a speaker.
fn find_speaker(groups: &Vec<SpeakerEntry>, sp: i64) -> (r: Option<usize>)
    ensures
        r matches Some(i) ==> i < groups@.len() && groups@[i as int]@.speaker == sp as int
            && forall|k: int| 0 <= k < i ==> groups@[k]@.speaker != sp as int,
        r is None ==> forall|k: int| 0 <= k < groups@.len() ==> groups@[k]@.speaker != sp as int,
{
    let mut i: usize = 0;
    while i < groups.len()
        invariant
            i <= groups@.len(),
            forall|k: int| 0 <= k < i ==> groups@[k]@.speaker != sp as int,
        decreases groups@.len() - i,
    {
        if groups[i].speaker == sp {
            return Some(i);
        }
        i = i + 1;
    }
    None
}

/// Applies one token's cleaned text to the speaker groups.
fn upsert_group(groups: &mut Vec<SpeakerEntry>, speaker: i64, language: Option<String>, text: String)
    ensures
        groups_view(final(groups)@) == spec_upsert(
            groups_view(old(groups)@),
            speaker as int,
            match language {
                Some(l) => Some(l@),
                None => None,
            },
            text@,
        ),
{
    let ghost gv = groups_view(groups@);
    match find_speaker(groups, speaker) {
        Some(i) => {
            proof {
                lemma_index_of_speaker(gv, speaker as int, i as int);
            }
            let mut e = groups.remove(i);
            e.text.append(text.as_str());
            if e.language.is_none() {
                e.language = language;
            }
            let ghost enew = e@;
            groups.insert(i, e);
            proof {
                assert(groups@ =~= old(groups)@.update(i as int, groups@[i as int]));
                assert(groups_view(groups@) =~= spec_upsert(
                    gv,
                    speaker as int,
                    match language {
                        Some(l) => Some(l@),
                        None => None,
                    },
                    text@,
                ));
            }
        },
        None => {
            proof {
                lemma_index_of_speaker(gv, speaker as int, gv.len() as int);
            }
            groups.push(SpeakerEntry { speaker, language, text });
            proof {
                assert(groups_view(groups@) =~= spec_upsert(
                    gv,
                    speaker as int,
                    match language {
                        Some(l) => Some(l@),
                        None => None,
                    },
                    text@,
                ));
            }
        },
    }
}

/// Renders the accumulated final tokens and the current non-final overlay
/// into the diarized transcript text.
pub fn render_tokens(final_tokens: &Vec<Token>, non_final_tokens: &Vec<Token>) -> (r: String)
    ensures
        r@ == spec_render(final_tokens@, non_final_tokens@),
{
    let mut groups: Vec<SpeakerEntry> = Vec::new();
    let mut last_speaker: Option<i64> = None;
    let mut i: usize = 0;
    while i < final_tokens.len()
        invariant
            i <= final_tokens@.len(),
            (groups_view(groups@), last_speaker) == spec_accum_final(
                Seq::<GroupView>::empty(),
                None,
                final_tokens@.subrange(0, i as int),
            ),
        decreases final_tokens@.len() - i,
    {
        proof {
            assert(final_tokens@.subrange(0, i as int + 1).drop_last() =~= final_tokens@.subrange(
                0,
                i as int,
            ));
        }
        let t = &final_tokens[i];
        let cleaned = clean_transcript_text_preserve_spacing(t.text.as_str());
        if !is_blank(cleaned.as_str()) {
            let sp = extract_speaker_id(t.speaker, None);
            let lang = match &t.language {
                Some(l) => l.clone(),
                None => String::from_str("?"),
            };
            upsert_group(&mut groups, sp, Some(lang), cleaned);
            last_speaker = Some(sp);
        }
        i = i + 1;
    }
    proof {
        assert(final_tokens@.subrange(0, final_tokens@.len() as int) =~= final_tokens@);
    }
    let ghost acc = spec_accum_final(Seq::<GroupView>::empty(), None, final_tokens@);
    let mut j: usize = 0;
    while j < non_final_tokens.len()
        invariant
            j <= non_final_tokens@.len(),
            last_speaker == acc.1,
            acc == spec_accum_final(Seq::<GroupView>::empty(), None, final_tokens@),
            groups_view(groups@) == spec_accum_nonfinal(
                acc.0,
                acc.1,
                non_final_tokens@.subrange(0, j as int),
            ),
        decreases non_final_tokens@.len() - j,
    {
        proof {
            assert(non_final_tokens@.subrange(0, j as int + 1).drop_last()
                =~= non_final_tokens@.subrange(0, j as int));
        }
        let t = &non_final_tokens[j];
        let cleaned = clean_transcript_text_preserve_spacing(t.text.as_str());
        if !is_blank(cleaned.as_str()) {
            let sp = extract_speaker_id(t.speaker, last_speaker);
            upsert_group(&mut groups, sp, None, cleaned);
        }
        j = j + 1;
    }
    proof {
        assert(non_final_tokens@.subrange(0, non_final_tokens@.len() as int)
            =~= non_final_tokens@);
    }

    let mut result = String::new();
    let mut k: usize = 0;
    while k < groups.len()
        invariant
            k <= groups@.len(),
            groups_view(groups@) == spec_accum_nonfinal(acc.0, acc.1, non_final_tokens@),
            acc == spec_accum_final(Seq::<GroupView>::empty(), None, final_tokens@),
            result@ == spec_render_groups(groups_view(groups@).subrange(0, k as int)),
        decreases groups@.len() - k,
    {
        proof {
            assert(groups_view(groups@).subrange(0, k as int + 1).drop_last() =~= groups_view(
                groups@,
            ).subrange(0, k as int));
        }
        let e = &groups[k];
        let formatted = format_transcript_line(e.text.as_str());
        if !formatted.as_str().is_empty() {
            if !result.as_str().is_empty() {
                result.append("\n");
            }
            if e.speaker > 0 {
                result.append("Speaker ");
                let num = u64_to_dec(e.speaker as u64);
                result.append(num.as_str());
                result.append(":");
            } else {
                result.append("Speaker:");
            }
            result.append(" [");
            match &e.language {
                Some(l) => result.append(l.as_str()),
                None => result.append("?"),
            }
            result.append("] ");
            result.append(formatted.as_str());
        }
        k = k + 1;
    }
    proof {
        assert(groups_view(groups@).subrange(0, groups@.len() as int) =~= groups_view(groups@));
    }
    if !result.as_str().is_empty() {
        result.append("\n");
        result.append("===============================");
    }
    result
}

/// The speakers of the entries, in entry order.
pub open spec fn speakers_of(gs: Seq<GroupView>) -> Seq<int> {
    gs.map(|i: int, g: GroupView| g.speaker)
}

/// The speakers of the final tokens that contribute text, each at its first
/// appearance, in token order.
pub open spec fn first_seen_speakers(toks: Seq<Token>) -> Seq<int>
    decreases toks.len(),
{
    if toks.len() == 0 {
        Seq::<int>::empty()
    } else {
        let pre = first_seen_speakers(toks.drop_last());
        let t = toks.last();
        if all_white(spec_clean(t.text@)) {
            pre
        } else {
            let sp = spec_speaker_of(t.speaker, None) as int;
            if pre.contains(sp) {
                pre
            } else {
                pre.push(sp)
            }
        }
    }
}

proof fn lemma_speaker_index_contains(g: Seq<GroupView>, sp: int)
    ensures
        index_of_speaker(g, sp) >= 0 <==> speakers_of(g).contains(sp),
    decreases g.len(),
{
    if g.len() > 0 {
        lemma_speaker_index_contains(g.drop_first(), sp);
        assert(speakers_of(g.drop_first()) =~= speakers_of(g).drop_first());
        if g[0].speaker == sp {
            assert(speakers_of(g)[0] == sp);
        } else if speakers_of(g).contains(sp) {
            let w = choose|w: int| 0 <= w < speakers_of(g).len() && speakers_of(g)[w] == sp;
            assert(speakers_of(g).drop_first()[w - 1] == sp);
        }
    }
}

proof fn lemma_upsert_speakers(g: Seq<GroupView>, sp: int, lang: Option<Seq<char>>, text: Seq<char>)
    ensures
        speakers_of(spec_upsert(g, sp, lang, text)) == if speakers_of(g).contains(sp) {
            speakers_of(g)
        } else {
            speakers_of(g).push(sp)
        },
{
    lemma_speaker_index_contains(g, sp);
    lemma_index_of_speaker_in_range(g, sp);
    if index_of_speaker(g, sp) >= 0 {
        assert(speakers_of(spec_upsert(g, sp, lang, text)) =~= speakers_of(g));
    } else {
        assert(speakers_of(spec_upsert(g, sp, lang, text)) =~= speakers_of(g).push(sp));
    }
}

/// Speakers render in first-appearance order: the entry order the final
/// tokens build is exactly the order in which their speakers first
/// contribute text, whatever the numeric ids are.
pub proof fn lemma_final_speaker_order(finals: Seq<Token>)
    ensures
        speakers_of(spec_accum_final(Seq::<GroupView>::empty(), None, finals).0)
            == first_seen_speakers(finals),
    decreases finals.len(),
{
    if finals.len() == 0 {
        assert(speakers_of(Seq::<GroupView>::empty()) =~= Seq::<int>::empty());
    } else {
        lemma_final_speaker_order(finals.drop_last());
        let t = finals.last();
        if !all_white(spec_clean(t.text@)) {
            let prev = spec_accum_final(Seq::<GroupView>::empty(), None, finals.drop_last());
            let sp = spec_speaker_of(t.speaker, None) as int;
            lemma_upsert_speakers(prev.0, sp, Some(spec_lang_of(t)), spec_clean(t.text@));
        }
    }
}

} // verus!
