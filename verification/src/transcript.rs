//! Turning the recogniser's segments into the text that is pasted: each
//! segment is trimmed, empty ones are dropped, the rest are joined by
//! single spaces; the pasted text is the trimmed transcript followed by one
//! space, so that consecutive dictations stay apart.
use vstd::prelude::*;
use crate::text::{is_white_space, join, join_with, trim, trim_end, trim_start, trim_str};

verus! {

/// The trimmed, non-empty segments, in order.
pub open spec fn kept_segments(segments: Seq<Seq<char>>) -> Seq<Seq<char>>
    decreases segments.len(),
{
    if segments.len() == 0 {
        Seq::empty()
    } else {
        let before = kept_segments(segments.drop_last());
        let t = trim(segments.last());
        if t.len() == 0 {
            before
        } else {
            before.push(t)
        }
    }
}

/// The transcript of a series of segments, or `None` when no segment holds
/// anything but whitespace.
pub open spec fn transcript_of(segments: Seq<Seq<char>>) -> Option<Seq<char>> {
    let kept = kept_segments(segments);
    if kept.len() == 0 {
        None
    } else {
        Some(join_with(kept, " "@))
    }
}

/// The text put on the clipboard for a transcript.
pub open spec fn paste_text_of(transcript: Seq<char>) -> Seq<char> {
    trim(transcript) + " "@
}

/// Joins the recogniser's segments into the transcript.
pub fn join_segments(segments: &Vec<String>) -> (t: Option<String>)
    ensures
        t is Some <==> transcript_of(segments@.map_values(|s: String| s@)) is Some,
        t matches Some(s) ==> transcript_of(segments@.map_values(|s: String| s@)) == Some(s@),
{
    let ghost views = segments@.map_values(|s: String| s@);
    let mut parts: Vec<String> = Vec::new();
    let mut i: usize = 0;
    while i < segments.len()
        invariant
            i <= segments.len(),
            views == segments@.map_values(|s: String| s@),
            parts@.map_values(|p: String| p@) == kept_segments(views.take(i as int)),
        decreases segments.len() - i,
    {
        let t = trim_str(segments[i].as_str());
        let ghost before = parts@;
        proof {
            assert(views.take(i + 1).drop_last() =~= views.take(i as int));
            assert(views.take(i + 1).last() == views[i as int]);
        }
        if t.unicode_len() != 0 {
            parts.push(t);
            assert(parts@.map_values(|p: String| p@) =~= before.map_values(|p: String| p@).push(
                trim(views[i as int]),
            ));
        }
        i = i + 1;
    }
    assert(views.take(segments.len() as int) =~= views);
    if parts.len() == 0 {
        None
    } else {
        Some(join(&parts, " "))
    }
}

/// The text to paste for a transcript: the trimmed transcript and one
/// space.
pub fn paste_text(transcript: &str) -> (p: String)
    ensures
        p@ == paste_text_of(transcript@),
{
    let mut p = trim_str(transcript);
    p.append(" ");
    p
}

proof fn lemma_trim_start_front(s: Seq<char>)
    ensures
        trim_start(s).len() == 0 || !is_white_space(trim_start(s)[0]),
        trim_start(s).len() <= s.len(),
        trim_start(s) == s.skip(s.len() - trim_start(s).len()),
    decreases s.len(),
{
    if s.len() > 0 && is_white_space(s[0]) {
        lemma_trim_start_front(s.drop_first());
        assert(s.drop_first().skip(s.drop_first().len() - trim_start(s).len()) =~= s.skip(
            s.len() - trim_start(s).len(),
        ));
    } else {
        assert(s.skip(0) =~= s);
    }
}

proof fn lemma_trim_end_back(s: Seq<char>)
    ensures
        trim_end(s).len() == 0 || !is_white_space(trim_end(s).last()),
        trim_end(s).len() <= s.len(),
        trim_end(s) == s.take(trim_end(s).len() as int),
    decreases s.len(),
{
    if s.len() > 0 && is_white_space(s.last()) {
        lemma_trim_end_back(s.drop_last());
        assert(s.drop_last().take(trim_end(s).len() as int) =~= s.take(trim_end(s).len() as int));
    } else {
        assert(s.take(s.len() as int) =~= s);
    }
}

/// A trimmed text neither begins nor ends with whitespace.
proof fn lemma_trim_ends(s: Seq<char>)
    ensures
        trim(s).len() > 0 ==> !is_white_space(trim(s)[0]) && !is_white_space(trim(s).last()),
{
    lemma_trim_start_front(s);
    lemma_trim_end_back(trim_start(s));
    let t = trim(s);
    if t.len() > 0 {
        assert(t[0] == trim_start(s).take(t.len() as int)[0]);
    }
}

/// A text that neither begins nor ends with whitespace is its own trim.
proof fn lemma_trim_fixed(s: Seq<char>)
    requires
        s.len() > 0 ==> !is_white_space(s[0]) && !is_white_space(s.last()),
    ensures
        trim(s) == s,
{
}

proof fn lemma_join_ends(parts: Seq<Seq<char>>)
    requires
        parts.len() > 0,
        forall|i: int| 0 <= i < parts.len() ==> (#[trigger] parts[i]).len() > 0,
    ensures
        join_with(parts, " "@).len() > 0,
        join_with(parts, " "@)[0] == parts[0][0],
        join_with(parts, " "@).last() == parts.last().last(),
    decreases parts.len(),
{
    if parts.len() > 1 {
        let init = parts.drop_last();
        assert forall|i: int| 0 <= i < init.len() implies (#[trigger] init[i]).len() > 0 by {
            assert(init[i] == parts[i]);
        }
        lemma_join_ends(init);
    }
}

proof fn lemma_kept_nonempty_trimmed(segments: Seq<Seq<char>>)
    ensures
        forall|i: int|
            0 <= i < kept_segments(segments).len() ==> {
                &&& (#[trigger] kept_segments(segments)[i]).len() > 0
                &&& !is_white_space(kept_segments(segments)[i][0])
                &&& !is_white_space(kept_segments(segments)[i].last())
            },
    decreases segments.len(),
{
    if segments.len() > 0 {
        lemma_kept_nonempty_trimmed(segments.drop_last());
        lemma_trim_ends(segments.last());
        let before = kept_segments(segments.drop_last());
        let kept = kept_segments(segments);
        let t = trim(segments.last());
        assert forall|i: int| 0 <= i < kept.len() implies {
            &&& (#[trigger] kept[i]).len() > 0
            &&& !is_white_space(kept[i][0])
            &&& !is_white_space(kept[i].last())
        } by {
            if i < before.len() {
                assert(kept[i] == before[i]);
            } else {
                assert(kept[i] == t);
            }
        }
    }
}

/// Whenever there is a transcript, it is non-empty and neither begins nor
/// ends with whitespace, so what is pasted is the transcript itself
/// followed by exactly one space.
pub proof fn law_paste_is_transcript_and_space(segments: Seq<Seq<char>>)
    ensures
        transcript_of(segments) matches Some(t) ==> {
            &&& t.len() > 0
            &&& !is_white_space(t[0])
            &&& !is_white_space(t.last())
            &&& paste_text_of(t) == t + " "@
        },
{
    let kept = kept_segments(segments);
    if kept.len() > 0 {
        lemma_kept_nonempty_trimmed(segments);
        lemma_join_ends(kept);
        let t = join_with(kept, " "@);
        lemma_trim_fixed(t);
    }
}

proof fn lemma_kept_concat(x: Seq<Seq<char>>, y: Seq<Seq<char>>)
    ensures
        kept_segments(x + y) == kept_segments(x) + kept_segments(y),
    decreases y.len(),
{
    if y.len() == 0 {
        assert(x + y =~= x);
        assert(kept_segments(x) + kept_segments(y) =~= kept_segments(x));
    } else {
        assert((x + y).drop_last() =~= x + y.drop_last());
        assert((x + y).last() == y.last());
        lemma_kept_concat(x, y.drop_last());
        let t = trim(y.last());
        if t.len() != 0 {
            assert((kept_segments(x) + kept_segments(y.drop_last())).push(t) =~= kept_segments(x)
                + kept_segments(y.drop_last()).push(t));
        }
    }
}

proof fn lemma_join_concat(p: Seq<Seq<char>>, q: Seq<Seq<char>>, sep: Seq<char>)
    requires
        p.len() > 0,
        q.len() > 0,
    ensures
        join_with(p + q, sep) == join_with(p, sep) + sep + join_with(q, sep),
    decreases q.len(),
{
    if q.len() == 1 {
        assert((p + q).drop_last() =~= p);
        assert((p + q).last() == q[0]);
    } else {
        assert((p + q).drop_last() =~= p + q.drop_last());
        assert((p + q).last() == q.last());
        lemma_join_concat(p, q.drop_last(), sep);
        assert(join_with(p + q, sep) =~= join_with(p, sep) + sep + join_with(q, sep));
    }
}

/// A segment that is blank once trimmed changes nothing, wherever it stands
/// among the others.
pub proof fn law_blank_segments_ignored(a: Seq<Seq<char>>, w: Seq<char>, b: Seq<Seq<char>>)
    requires
        trim(w).len() == 0,
    ensures
        transcript_of(a + seq![w] + b) == transcript_of(a + b),
{
    lemma_kept_concat(a + seq![w], b);
    lemma_kept_concat(a, seq![w]);
    lemma_kept_concat(a, b);
    assert(seq![w].drop_last() =~= Seq::<Seq<char>>::empty());
    assert(seq![w].last() == w);
    assert(kept_segments(Seq::<Seq<char>>::empty()) =~= Seq::<Seq<char>>::empty());
    assert(kept_segments(seq![w]) =~= Seq::<Seq<char>>::empty());
    assert(kept_segments(a) + kept_segments(seq![w]) =~= kept_segments(a));
}

/// A single segment with something spoken in it is transcribed as itself,
/// trimmed; nothing at all gives no transcript.
pub proof fn law_single_segment(w: Seq<char>)
    ensures
        trim(w).len() > 0 ==> transcript_of(seq![w]) == Some(trim(w)),
        trim(w).len() == 0 ==> transcript_of(seq![w]) is None,
        transcript_of(Seq::empty()) is None,
{
    assert(seq![w].drop_last() =~= Seq::<Seq<char>>::empty());
    assert(seq![w].last() == w);
    assert(kept_segments(Seq::<Seq<char>>::empty()) =~= Seq::<Seq<char>>::empty());
    if trim(w).len() > 0 {
        assert(kept_segments(seq![w]) =~= seq![trim(w)]);
    }
}

/// The transcript of two runs of segments, one after the other, is the
/// transcript of the first, one space, and the transcript of the second;
/// a run with nothing spoken contributes nothing.
pub proof fn law_transcript_concat(a: Seq<Seq<char>>, b: Seq<Seq<char>>)
    ensures
        transcript_of(a) is None ==> transcript_of(a + b) == transcript_of(b),
        transcript_of(b) is None ==> transcript_of(a + b) == transcript_of(a),
        transcript_of(a) is Some && transcript_of(b) is Some ==> transcript_of(a + b) == Some(
            transcript_of(a)->0 + " "@ + transcript_of(b)->0,
        ),
{
    lemma_kept_concat(a, b);
    let ka = kept_segments(a);
    let kb = kept_segments(b);
    if ka.len() == 0 {
        assert(ka + kb =~= kb);
    } else if kb.len() == 0 {
        assert(ka + kb =~= ka);
    } else {
        lemma_join_concat(ka, kb, " "@);
    }
}

} // verus!
