use vstd::prelude::*;

use crate::chunk::{chunk_text, chunks_from, spec_chunk_text, string_views};
use crate::error::TranslateError;
use crate::text::count_chars;
use crate::upstream::{opt_view, translation_view, MAX_TEXT_LENGTH};

verus! {

/// How a text is split for translation: kept whole when it has at most
/// `MAX_TEXT_LENGTH` characters, else cut by `chunk_text`.
pub open spec fn plan_for(t: Seq<char>) -> Seq<Seq<char>> {
    if t.len() <= MAX_TEXT_LENGTH {
        seq![t]
    } else {
        spec_chunk_text(t, MAX_TEXT_LENGTH as int)
    }
}

/// Every text is planned as at least one piece, and joining the pieces gives
/// the text back.
pub proof fn law_plan_covers_text(t: Seq<char>)
    ensures
        plan_for(t).len() >= 1,
        plan_for(t).flatten() == t,
{
    if t.len() <= MAX_TEXT_LENGTH {
        let p = plan_for(t);
        assert(p.drop_first() =~= Seq::<Seq<char>>::empty());
        assert(p.drop_first().flatten() == Seq::<char>::empty());
        assert(p.flatten() =~= t);
    } else {
        assert(chunks_from(t, 0, MAX_TEXT_LENGTH as int).len() >= 1);
        crate::chunk::law_chunks_reassemble(t, MAX_TEXT_LENGTH as int);
    }
}

/// No piece sent upstream is longer than `MAX_TEXT_LENGTH` characters, and a
/// non-empty text yields no empty piece.
pub proof fn law_pieces_fit_upstream_limit(t: Seq<char>)
    ensures
        forall|k: int| 0 <= k < plan_for(t).len() ==> (#[trigger] plan_for(t)[k]).len() <= MAX_TEXT_LENGTH,
        t.len() > 0 ==> forall|k: int| 0 <= k < plan_for(t).len() ==> (#[trigger] plan_for(t)[k]).len() >= 1,
{
    if t.len() > MAX_TEXT_LENGTH {
        crate::chunk::law_chunk_sizes(t, MAX_TEXT_LENGTH as int);
    }
}

/// The pieces in which `text` is translated.
pub fn plan_chunks(text: &str) -> (r: Vec<String>)
    ensures
        string_views(r@) == plan_for(text@),
{
    if count_chars(text) <= MAX_TEXT_LENGTH {
        let mut v: Vec<String> = Vec::new();
        v.push(text.to_owned());
        assert(string_views(v@) =~= seq![text@]);
        v
    } else {
        chunk_text(text, MAX_TEXT_LENGTH)
    }
}

/// One translated piece: the piece sent, its translation and the source
/// language detected for it.
pub type PieceReply = (Seq<char>, Seq<char>, Option<Seq<char>>);

/// The detected language of a text: the one reported for its first piece,
/// none when that piece reported none.
pub open spec fn first_detected(rs: Seq<PieceReply>) -> Option<Seq<char>> {
    if rs.len() == 0 {
        None
    } else {
        rs[0].2
    }
}

/// The translation of a text from the replies for its pieces: the
/// translations joined in order, and the language detected for the first
/// piece.
pub open spec fn combine(rs: Seq<PieceReply>) -> (Seq<char>, Option<Seq<char>>) {
    (rs.map_values(|r: PieceReply| r.1).flatten(), first_detected(rs))
}

proof fn lemma_flatten_push<A>(s: Seq<Seq<A>>, x: Seq<A>)
    ensures
        s.push(x).flatten() == s.flatten() + x,
{
    s.lemma_flatten_and_flatten_alt_are_equivalent();
    s.push(x).lemma_flatten_and_flatten_alt_are_equivalent();
    assert(s.push(x).drop_last() =~= s);
}

/// The translation of a text is its pieces' translations joined in order:
/// one more piece appends its translation; and its detected language is the
/// one reported for the first piece, whatever later pieces report.
pub proof fn law_combine_joins_in_order(rs: Seq<PieceReply>, x: PieceReply)
    ensures
        combine(rs.push(x)).0 == combine(rs).0 + x.1,
        combine(seq![x]).0 == x.1,
        combine(seq![x] + rs).1 == x.2,
        combine(Seq::<PieceReply>::empty()) == (Seq::<char>::empty(), None::<Seq<char>>),
{
    let f = |r: PieceReply| r.1;
    assert(rs.push(x).map_values(f) =~= rs.map_values(f).push(x.1));
    lemma_flatten_push(rs.map_values(f), x.1);
    assert(seq![x].map_values(f) =~= Seq::<Seq<char>>::empty().push(x.1));
    lemma_flatten_push(Seq::<Seq<char>>::empty(), x.1);
    assert(Seq::<Seq<char>>::empty().flatten() =~= Seq::<char>::empty());
    assert(Seq::<PieceReply>::empty().map_values(f) =~= Seq::<Seq<char>>::empty());
}

/// The strings of `parts` joined in order.
pub fn concat_strings(parts: &Vec<String>) -> (r: String)
    ensures
        r@ == string_views(parts@).flatten(),
{
    let mut r = String::new();
    let mut i: usize = 0;
    let n = parts.len();
    assert(string_views(parts@).take(0) =~= Seq::<Seq<char>>::empty());
    while i < n
        invariant
            n == parts@.len(),
            i <= n,
            r@ == string_views(parts@).take(i as int).flatten(),
        decreases n - i,
    {
        r.append(parts[i].as_str());
        proof {
            lemma_flatten_push(string_views(parts@).take(i as int), parts@[i as int]@);
            assert(string_views(parts@).take(i + 1) =~= string_views(parts@).take(i as int).push(
                parts@[i as int]@,
            ));
        }
        i += 1;
    }
    assert(string_views(parts@).take(n as int) =~= string_views(parts@));
    r
}

/// What the translation of a batch asks for next.
pub enum Step {
    /// Send one upstream request for this piece.
    Send(String),
    /// Refresh the cookies (ignoring failure), wait `delay_secs` seconds, then
    /// send this piece again.
    Retry { text: String, delay_secs: u64 },
    /// The batch is over: `BatchJob::finish` gives its outcome.
    Finished,
}

/// The abstract state of a batch translation.
pub struct JobView {
    /// The pieces of each text.
    pub plans: Seq<Seq<Seq<char>>>,
    /// The text being translated (all are done when it equals the number of texts).
    pub text_index: int,
    /// The piece of that text being translated.
    pub chunk_index: int,
    /// Whether that piece failed once with a retryable error.
    pub retrying: bool,
    /// The replies for the pieces of the current text so far.
    pub current: Seq<PieceReply>,
    /// The replies for the pieces of every finished text.
    pub done: Seq<Seq<PieceReply>>,
    /// The error that ended the batch, if any.
    pub failure: Option<TranslateError>,
}

/// The shape every reachable state has: positions within the plans, replies
/// recorded against the pieces they answer.
pub open spec fn job_wf(v: JobView) -> bool {
    &&& forall|i: int| 0 <= i < v.plans.len() ==> (#[trigger] v.plans[i]).len() > 0
    &&& 0 <= v.text_index <= v.plans.len()
    &&& v.text_index < v.plans.len() ==> 0 <= v.chunk_index < v.plans[v.text_index].len()
    &&& v.text_index == v.plans.len() ==> v.chunk_index == 0 && !v.retrying
    &&& v.current.len() == v.chunk_index
    &&& forall|k: int| 0 <= k < v.chunk_index ==> (#[trigger] v.current[k]).0 == v.plans[v.text_index][k]
    &&& v.done.len() == v.text_index
    &&& forall|i: int| 0 <= i < v.text_index ==> (#[trigger] v.done[i]).len() == v.plans[i].len()
    &&& forall|i: int, k: int|
        0 <= i < v.text_index && 0 <= k < v.done[i].len() ==> (#[trigger] v.done[i][k]).0
            == v.plans[i][k]
}

/// Whether the batch is over: an error ended it, or every text is translated.
pub open spec fn job_finished(v: JobView) -> bool {
    v.failure is Some || v.text_index == v.plans.len()
}

/// The step that a state asks for.
pub open spec fn spec_next_step(v: JobView, s: Step) -> bool {
    if job_finished(v) {
        s is Finished
    } else if v.retrying {
        s is Retry && s->text@ == v.plans[v.text_index][v.chunk_index] && s->delay_secs == 1
    } else {
        s is Send && s->Send_0@ == v.plans[v.text_index][v.chunk_index]
    }
}

/// The views of a reply for one piece.
pub open spec fn reply_view(r: Result<(String, Option<String>), TranslateError>) -> Result<
    (Seq<char>, Option<Seq<char>>),
    TranslateError,
> {
    match r {
        Ok(t) => Ok(translation_view(t)),
        Err(e) => Err(e),
    }
}

/// The state after the reply `r` for the current piece: a translation is
/// recorded and the batch moves to the next piece (or text); a first
/// retryable error asks for one retry of the same piece; any other error ends
/// the batch.
pub open spec fn after_reply(v: JobView, r: Result<(Seq<char>, Option<Seq<char>>), TranslateError>) -> JobView {
    match r {
        Ok(t) => {
            let entry = (v.plans[v.text_index][v.chunk_index], t.0, t.1);
            let cur = v.current.push(entry);
            if v.chunk_index + 1 == v.plans[v.text_index].len() {
                JobView {
                    text_index: v.text_index + 1,
                    chunk_index: 0,
                    retrying: false,
                    current: Seq::empty(),
                    done: v.done.push(cur),
                    ..v
                }
            } else {
                JobView { chunk_index: v.chunk_index + 1, retrying: false, current: cur, ..v }
            }
        },
        Err(e) => if e.spec_is_retryable() && !v.retrying {
            JobView { retrying: true, ..v }
        } else {
            JobView { failure: Some(e), ..v }
        },
    }
}

/// The number of pieces from piece `ci` of text `ti` to the end.
pub open spec fn pieces_left(plans: Seq<Seq<Seq<char>>>, ti: int, ci: int) -> int
    decreases plans.len() - ti,
{
    if ti < 0 || ti >= plans.len() {
        0
    } else {
        (plans[ti].len() - ci) + pieces_left(plans, ti + 1, 0)
    }
}

/// The most upstream requests the batch can still make: two per piece left,
/// one fewer when the current piece is already being retried, none after an
/// error ended it.
pub open spec fn attempts_left(v: JobView) -> int {
    if v.failure is Some {
        0
    } else {
        2 * pieces_left(v.plans, v.text_index, v.chunk_index) - (if v.retrying {
            1int
        } else {
            0int
        })
    }
}

proof fn lemma_pieces_left_nonneg(plans: Seq<Seq<Seq<char>>>, ti: int)
    ensures
        pieces_left(plans, ti, 0) >= 0,
    decreases plans.len() - ti,
{
    if 0 <= ti < plans.len() {
        lemma_pieces_left_nonneg(plans, ti + 1);
    }
}

/// Every reply brings the batch closer to its end: the number of requests it
/// may still make drops, and never below zero. So a batch of texts with `n`
/// pieces in all makes at most `2 n` upstream requests, each piece being sent
/// at most twice.
pub proof fn law_each_reply_makes_progress(
    v: JobView,
    r: Result<(Seq<char>, Option<Seq<char>>), TranslateError>,
)
    requires
        job_wf(v),
        !job_finished(v),
    ensures
        job_wf(after_reply(v, r)),
        0 <= attempts_left(after_reply(v, r)) < attempts_left(v),
{
    let w = after_reply(v, r);
    lemma_pieces_left_nonneg(v.plans, v.text_index + 1);
    match r {
        Ok(t) => {
            let entry = (v.plans[v.text_index][v.chunk_index], t.0, t.1);
            let cur = v.current.push(entry);
            if v.chunk_index + 1 == v.plans[v.text_index].len() {
                assert forall|i: int| 0 <= i < w.text_index implies (#[trigger] w.done[i]).len()
                    == w.plans[i].len() by {
                    if i < v.text_index {
                        assert(w.done[i] == v.done[i]);
                    }
                }
                assert forall|i: int, k: int|
                    0 <= i < w.text_index && 0 <= k < w.done[i].len() implies (
                    #[trigger] w.done[i][k]).0 == w.plans[i][k] by {
                    if i < v.text_index {
                        assert(w.done[i] == v.done[i]);
                    } else {
                        assert(w.done[i] == cur);
                        if k < v.chunk_index {
                            assert(cur[k] == v.current[k]);
                        }
                    }
                }
            } else {
                assert forall|k: int| 0 <= k < w.chunk_index implies (#[trigger] w.current[k]).0
                    == w.plans[w.text_index][k] by {
                    if k < v.chunk_index {
                        assert(w.current[k] == v.current[k]);
                    }
                }
            }
        },
        Err(e) => {},
    }
}

/// A batch that ended without error has answered every piece of every text:
/// one list of replies per text, in input order, each reply recorded against
/// the piece it answers, in the order of the pieces.
pub proof fn law_finished_batch_answers_every_piece(v: JobView)
    requires
        job_wf(v),
        job_finished(v),
        v.failure is None,
    ensures
        v.done.len() == v.plans.len(),
        forall|i: int| 0 <= i < v.plans.len() ==> (#[trigger] v.done[i]).len() == v.plans[i].len(),
        forall|i: int, k: int|
            0 <= i < v.plans.len() && 0 <= k < v.plans[i].len() ==> (#[trigger] v.done[i][k]).0
                == v.plans[i][k],
{
}

/// A reply for one piece, as character sequences.
pub type ReplyView = Result<(Seq<char>, Option<Seq<char>>), TranslateError>;

/// The pieces still to translate, in the order in which they are sent: from
/// piece `ci` of text `ti` to the end of that text, then every piece of each
/// later text.
pub open spec fn pieces_from(plans: Seq<Seq<Seq<char>>>, ti: int, ci: int) -> Seq<Seq<char>>
    decreases plans.len() - ti,
{
    if ti < 0 || ti >= plans.len() {
        Seq::empty()
    } else {
        plans[ti].subrange(ci, plans[ti].len() as int) + pieces_from(plans, ti + 1, 0)
    }
}

/// The replies recorded so far, piece by piece, over all texts.
pub open spec fn recorded(v: JobView) -> Seq<PieceReply> {
    v.done.flatten() + v.current
}

/// The pieces `ps` paired with the translations `ts` given for them, as far
/// as `ts` goes.
pub open spec fn answered(ps: Seq<Seq<char>>, ts: Seq<(Seq<char>, Option<Seq<char>>)>) -> Seq<PieceReply> {
    Seq::new(ts.len(), |k: int| (ps[k], ts[k].0, ts[k].1))
}

/// The translations `ts`, each as a successful reply.
pub open spec fn ok_replies(ts: Seq<(Seq<char>, Option<Seq<char>>)>) -> Seq<ReplyView> {
    ts.map_values(|t: (Seq<char>, Option<Seq<char>>)| Ok(t))
}

/// The state after the replies `rs` are handed in turn to a job in state
/// `v`, each answering the step asked for; replies that come once the job is
/// finished are never asked for and are not read.
pub open spec fn run(v: JobView, rs: Seq<ReplyView>) -> JobView
    decreases rs.len(),
{
    if rs.len() == 0 || job_finished(v) {
        v
    } else {
        run(after_reply(v, rs[0]), rs.drop_first())
    }
}

/// The pieces sent upstream, in order, while the replies `rs` are handed to
/// a job in state `v` (a retried piece appears once per request).
pub open spec fn sent(v: JobView, rs: Seq<ReplyView>) -> Seq<Seq<char>>
    decreases rs.len(),
{
    if rs.len() == 0 || job_finished(v) {
        Seq::empty()
    } else {
        seq![v.plans[v.text_index][v.chunk_index]] + sent(after_reply(v, rs[0]), rs.drop_first())
    }
}

/// A job that has not failed is finished exactly when no piece is left.
proof fn lemma_finished_iff_no_piece_left(v: JobView)
    requires
        job_wf(v),
        v.failure is None,
    ensures
        job_finished(v) <==> pieces_from(v.plans, v.text_index, v.chunk_index).len() == 0,
{
}

/// A successful reply answers the first piece left and moves past it.
proof fn lemma_ok_step(v: JobView, t: (Seq<char>, Option<Seq<char>>))
    requires
        job_wf(v),
        !job_finished(v),
        !v.retrying,
    ensures
        ({
            let w = after_reply(v, Ok(t));
            let ps = pieces_from(v.plans, v.text_index, v.chunk_index);
            &&& job_wf(w)
            &&& w.failure is None
            &&& !w.retrying
            &&& ps.len() > 0
            &&& ps[0] == v.plans[v.text_index][v.chunk_index]
            &&& pieces_from(w.plans, w.text_index, w.chunk_index) == ps.drop_first()
            &&& recorded(w) == recorded(v).push((ps[0], t.0, t.1))
        }),
{
    law_each_reply_makes_progress(v, Ok(t));
    let w = after_reply(v, Ok(t));
    let p = v.plans[v.text_index];
    let rest = pieces_from(v.plans, v.text_index + 1, 0);
    let ps = pieces_from(v.plans, v.text_index, v.chunk_index);
    assert(ps == p.subrange(v.chunk_index, p.len() as int) + rest);
    let entry = (p[v.chunk_index], t.0, t.1);
    if v.chunk_index + 1 == p.len() {
        assert(ps.drop_first() =~= rest);
        lemma_flatten_push(v.done, v.current.push(entry));
        assert(recorded(w) =~= recorded(v).push(entry));
    } else {
        assert(pieces_from(w.plans, w.text_index, w.chunk_index) == p.subrange(
            v.chunk_index + 1,
            p.len() as int,
        ) + rest);
        assert(ps.drop_first() =~= p.subrange(v.chunk_index + 1, p.len() as int) + rest);
        assert(recorded(w) =~= recorded(v).push(entry));
    }
}

/// When every reply is a translation, the job sends each piece left exactly
/// once, in order (the pieces of each text in turn, texts in input order),
/// finishes without error once the last one is answered, and records each
/// reply against the piece it answers.
pub proof fn law_successful_run_answers_pieces_in_order(
    v: JobView,
    ts: Seq<(Seq<char>, Option<Seq<char>>)>,
)
    requires
        job_wf(v),
        v.failure is None,
        !v.retrying,
        ts.len() == pieces_from(v.plans, v.text_index, v.chunk_index).len(),
    ensures
        ({
            let ps = pieces_from(v.plans, v.text_index, v.chunk_index);
            let w = run(v, ok_replies(ts));
            &&& job_wf(w)
            &&& job_finished(w)
            &&& w.plans == v.plans
            &&& w.failure is None
            &&& sent(v, ok_replies(ts)) == ps
            &&& recorded(w) == recorded(v) + answered(ps, ts)
        }),
    decreases ts.len(),
{
    let ps = pieces_from(v.plans, v.text_index, v.chunk_index);
    lemma_finished_iff_no_piece_left(v);
    if ts.len() == 0 {
        assert(answered(ps, ts) =~= Seq::<PieceReply>::empty());
        assert(recorded(v) + answered(ps, ts) =~= recorded(v));
        assert(ps =~= Seq::<Seq<char>>::empty());
    } else {
        let t = ts[0];
        lemma_ok_step(v, t);
        let w = after_reply(v, Ok(t));
        assert(ok_replies(ts)[0] == Ok::<(Seq<char>, Option<Seq<char>>), TranslateError>(t));
        assert(ok_replies(ts).drop_first() =~= ok_replies(ts.drop_first()));
        law_successful_run_answers_pieces_in_order(w, ts.drop_first());
        assert(answered(ps, ts) =~= seq![(ps[0], t.0, t.1)] + answered(ps.drop_first(), ts.drop_first()));
        assert(sent(v, ok_replies(ts)) =~= seq![ps[0]] + ps.drop_first());
        assert(recorded(v).push((ps[0], t.0, t.1)) + answered(ps.drop_first(), ts.drop_first())
            =~= recorded(v) + answered(ps, ts));
    }
}

/// The first error that is not retried ends the job: when the pieces before
/// it were translated, the job fails with that error, no piece after the
/// failed one is sent, later replies are never read, and only the
/// translations before the error are recorded.
pub proof fn law_first_error_ends_run(
    v: JobView,
    ts: Seq<(Seq<char>, Option<Seq<char>>)>,
    e: TranslateError,
    later: Seq<ReplyView>,
)
    requires
        job_wf(v),
        v.failure is None,
        !v.retrying,
        ts.len() < pieces_from(v.plans, v.text_index, v.chunk_index).len(),
        !e.spec_is_retryable(),
    ensures
        ({
            let ps = pieces_from(v.plans, v.text_index, v.chunk_index);
            let rs = ok_replies(ts) + seq![Err::<(Seq<char>, Option<Seq<char>>), TranslateError>(e)] + later;
            let w = run(v, rs);
            &&& job_wf(w)
            &&& job_finished(w)
            &&& w.plans == v.plans
            &&& w.failure == Some(e)
            &&& sent(v, rs) == ps.take(ts.len() + 1int)
            &&& recorded(w) == recorded(v) + answered(ps, ts)
        }),
    decreases ts.len(),
{
    let ps = pieces_from(v.plans, v.text_index, v.chunk_index);
    let err = Err::<(Seq<char>, Option<Seq<char>>), TranslateError>(e);
    let rs = ok_replies(ts) + seq![err] + later;
    lemma_finished_iff_no_piece_left(v);
    if ts.len() == 0 {
        assert(rs[0] == err);
        let w = after_reply(v, err);
        law_each_reply_makes_progress(v, err);
        assert(run(w, rs.drop_first()) == w);
        assert(sent(w, rs.drop_first()) =~= Seq::<Seq<char>>::empty());
        assert(sent(v, rs) =~= ps.take(1));
        assert(answered(ps, ts) =~= Seq::<PieceReply>::empty());
        assert(recorded(v) + answered(ps, ts) =~= recorded(v));
    } else {
        let t = ts[0];
        lemma_ok_step(v, t);
        let w = after_reply(v, Ok(t));
        assert(rs[0] == Ok::<(Seq<char>, Option<Seq<char>>), TranslateError>(t));
        assert(rs.drop_first() =~= ok_replies(ts.drop_first()) + seq![err] + later);
        law_first_error_ends_run(w, ts.drop_first(), e, later);
        assert(answered(ps, ts) =~= seq![(ps[0], t.0, t.1)] + answered(ps.drop_first(), ts.drop_first()));
        assert(sent(v, rs) =~= seq![ps[0]] + ps.drop_first().take(ts.len() as int));
        assert(ps.take(ts.len() + 1int) =~= seq![ps[0]] + ps.drop_first().take(ts.len() as int));
        assert(recorded(v).push((ps[0], t.0, t.1)) + answered(ps.drop_first(), ts.drop_first())
            =~= recorded(v) + answered(ps, ts));
    }
}

/// A retryable error is retried once, on the same piece after a one-second
/// wait: if the retry is translated the job goes on exactly as if the first
/// request had been, and if it fails too, that second error ends the job.
pub proof fn law_retryable_error_retried_once(
    v: JobView,
    e: TranslateError,
    second: ReplyView,
)
    requires
        job_wf(v),
        !job_finished(v),
        !v.retrying,
        e.spec_is_retryable(),
    ensures
        ({
            let w = after_reply(v, Err(e));
            &&& job_wf(w)
            &&& !job_finished(w)
            &&& w.text_index == v.text_index && w.chunk_index == v.chunk_index
            &&& recorded(w) == recorded(v)
            &&& forall|s: Step| spec_next_step(w, s) ==> s is Retry && s->text@
                == v.plans[v.text_index][v.chunk_index] && s->delay_secs == 1
            &&& second is Ok ==> after_reply(w, second) == after_reply(v, second)
            &&& second is Err ==> after_reply(w, second).failure == Some(second->Err_0)
        }),
{
    law_each_reply_makes_progress(v, Err(e));
}

/// The state of a job that has just been given the pieces `plans`.
pub open spec fn start_view(plans: Seq<Seq<Seq<char>>>) -> JobView {
    JobView {
        plans,
        text_index: 0,
        chunk_index: 0,
        retrying: false,
        current: Seq::empty(),
        done: Seq::empty(),
        failure: None,
    }
}

proof fn lemma_pieces_from_start_of_text(plans: Seq<Seq<Seq<char>>>, ti: int)
    requires
        0 <= ti <= plans.len(),
    ensures
        pieces_from(plans, ti, 0) == plans.subrange(ti, plans.len() as int).flatten(),
    decreases plans.len() - ti,
{
    if ti < plans.len() {
        lemma_pieces_from_start_of_text(plans, ti + 1);
        let s = plans.subrange(ti, plans.len() as int);
        assert(s.drop_first() =~= plans.subrange(ti + 1, plans.len() as int));
        assert(plans[ti].subrange(0, plans[ti].len() as int) =~= plans[ti]);
    } else {
        assert(plans.subrange(ti, plans.len() as int) =~= Seq::<Seq<Seq<char>>>::empty());
    }
}

/// A batch of texts in which every piece is translated: the texts are taken
/// one at a time in input order, the pieces of each in order, every piece is
/// sent once, and the job ends without error with one list of replies per
/// text, each the pieces of that text paired with their translations.
pub proof fn law_batch_translates_in_input_order(
    texts: Seq<Seq<char>>,
    ts: Seq<(Seq<char>, Option<Seq<char>>)>,
)
    requires
        ts.len() == texts.map_values(|t: Seq<char>| plan_for(t)).flatten().len(),
    ensures
        ({
            let plans = texts.map_values(|t: Seq<char>| plan_for(t));
            let w = run(start_view(plans), ok_replies(ts));
            &&& job_finished(w)
            &&& w.failure is None
            &&& sent(start_view(plans), ok_replies(ts)) == plans.flatten()
            &&& w.done.len() == texts.len()
            &&& forall|i: int| 0 <= i < texts.len() ==> (#[trigger] w.done[i]).len() == plans[i].len()
            &&& w.done.flatten() == answered(plans.flatten(), ts)
        }),
{
    let plans = texts.map_values(|t: Seq<char>| plan_for(t));
    let v = start_view(plans);
    assert forall|i: int| 0 <= i < plans.len() implies (#[trigger] plans[i]).len() > 0 by {
        law_plan_covers_text(texts[i]);
    }
    lemma_pieces_from_start_of_text(plans, 0);
    assert(plans.subrange(0, plans.len() as int) =~= plans);
    assert(recorded(v) =~= Seq::<PieceReply>::empty());
    law_successful_run_answers_pieces_in_order(v, ts);
    let w = run(v, ok_replies(ts));
    assert(recorded(v) + answered(plans.flatten(), ts) =~= answered(plans.flatten(), ts));
    assert(w.current.len() == 0);
    assert(recorded(w) =~= w.done.flatten());
}

/// How far a batch has come: everything of a `BatchJob` but its pieces.
struct Progress {
    text_index: usize,
    chunk_index: usize,
    retrying: bool,
    parts: Vec<String>,
    detected: Option<String>,
    results: Vec<(String, Option<String>)>,
    failure: Option<TranslateError>,
    current: Ghost<Seq<PieceReply>>,
    done: Ghost<Seq<Seq<PieceReply>>>,
}

impl Progress {
    /// The progress of a batch that has not begun.
    fn start() -> (p: Progress)
        ensures
            p.text_index == 0,
            p.chunk_index == 0,
            !p.retrying,
            p.parts@.len() == 0,
            p.detected is None,
            p.results@.len() == 0,
            p.failure is None,
            p.current@ == Seq::<PieceReply>::empty(),
            p.done@ == Seq::<Seq<PieceReply>>::empty(),
    {
        Progress {
            text_index: 0,
            chunk_index: 0,
            retrying: false,
            parts: Vec::new(),
            detected: None,
            results: Vec::new(),
            failure: None,
            current: Ghost(Seq::empty()),
            done: Ghost(Seq::empty()),
        }
    }
}

/// The pieces of each text, as character sequences.
pub open spec fn plan_views(plans: Seq<Vec<String>>) -> Seq<Seq<Seq<char>>> {
    plans.map_values(|v: Vec<String>| string_views(v@))
}

/// The abstract state of a batch with pieces `plans` and progress `p`.
spec fn state_of(plans: Seq<Vec<String>>, p: Progress) -> JobView {
    JobView {
        plans: plan_views(plans),
        text_index: p.text_index as int,
        chunk_index: p.chunk_index as int,
        retrying: p.retrying,
        current: p.current@,
        done: p.done@,
        failure: p.failure,
    }
}

/// The state is reachable, and what the progress holds agrees with it: the
/// parts translated so far are the current replies' translations, the
/// detected language the one reported for the first piece, and each finished
/// text is the combination of its replies.
spec fn progress_wf(plans: Seq<Vec<String>>, p: Progress) -> bool {
    &&& job_wf(state_of(plans, p))
    &&& string_views(p.parts@) == p.current@.map_values(|r: PieceReply| r.1)
    &&& opt_view(p.detected) == first_detected(p.current@)
    &&& p.results@.len() == p.text_index
    &&& forall|i: int|
        0 <= i < p.text_index ==> translation_view(#[trigger] p.results@[i]) == combine(p.done@[i])
}

/// The translation of a batch of texts, piece by piece, in input order:
/// each text is split by `plan_for`, each piece is sent once and retried
/// once after a retryable error, and the first other error ends the batch.
pub struct BatchJob {
    plans: Vec<Vec<String>>,
    progress: Progress,
}

impl View for BatchJob {
    type V = JobView;

    closed spec fn view(&self) -> JobView {
        state_of(self.plans@, self.progress)
    }
}

/// The translated texts, as character sequences.
pub open spec fn results_view(rs: Seq<(String, Option<String>)>) -> Seq<(Seq<char>, Option<Seq<char>>)> {
    rs.map_values(|t: (String, Option<String>)| translation_view(t))
}

/// Records the reply `reply` for the piece last asked for, in the progress
/// `p` of a batch with pieces `plans`.
fn record_reply(
    plans: &Vec<Vec<String>>,
    p: &mut Progress,
    reply: Result<(String, Option<String>), TranslateError>,
)
    requires
        progress_wf(plans@, *old(p)),
        !job_finished(state_of(plans@, *old(p))),
    ensures
        progress_wf(plans@, *final(p)),
        state_of(plans@, *final(p)) == after_reply(state_of(plans@, *old(p)), reply_view(reply)),
{
    let ghost v = state_of(plans@, *p);
    proof {
        law_each_reply_makes_progress(v, reply_view(reply));
    }
    assert(v.plans.len() == plans@.len());
    assert(v.text_index < v.plans.len());
    assert(v.plans[v.text_index] == string_views(plans@[v.text_index]@));
    assert(v.chunk_index < plans@[v.text_index]@.len());
    let ntexts = plans.len();
    let npieces = plans[p.text_index].len();
    assert(p.text_index < ntexts);
    match reply {
        Ok((text, det)) => {
            let ghost entry = (v.plans[v.text_index][v.chunk_index], text@, opt_view(det));
            let ghost cur = p.current@.push(entry);
            if p.chunk_index == 0 {
                p.detected = det;
            }
            let ghost parts_before = p.parts@;
            p.parts.push(text);
            assert(string_views(p.parts@) =~= string_views(parts_before).push(text@));
            assert(cur.map_values(|r: PieceReply| r.1) =~= p.current@.map_values(
                |r: PieceReply| r.1,
            ).push(text@));
            p.current = Ghost(cur);
            p.retrying = false;
            if p.chunk_index + 1 == npieces {
                let mut parts: Vec<String> = Vec::new();
                std::mem::swap(&mut parts, &mut p.parts);
                let joined = concat_strings(&parts);
                let detected = p.detected.take();
                let ghost results_before = p.results@;
                p.results.push((joined, detected));
                p.done = Ghost(p.done@.push(cur));
                p.current = Ghost(Seq::empty());
                p.text_index = p.text_index + 1;
                p.chunk_index = 0;
                assert(string_views(p.parts@) =~= p.current@.map_values(|r: PieceReply| r.1));
                assert forall|i: int| 0 <= i < p.text_index implies translation_view(
                    #[trigger] p.results@[i],
                ) == combine(p.done@[i]) by {
                    if i < p.text_index - 1 {
                        assert(p.results@[i] == results_before[i]);
                    }
                }
            } else {
                p.chunk_index = p.chunk_index + 1;
            }
        },
        Err(e) => {
            if e.is_retryable() && !p.retrying {
                p.retrying = true;
            } else {
                p.failure = Some(e);
            }
        },
    }
    assert(state_of(plans@, *p) =~= after_reply(v, reply_view(reply)));
}

impl BatchJob {
    /// What every job holds: its state is reachable, and what it keeps agrees
    /// with its view.
    #[verifier::type_invariant]
    spec fn inv(&self) -> bool {
        progress_wf(self.plans@, self.progress)
    }

    /// Starts the translation of `texts`.
    pub fn new(texts: &Vec<String>) -> (job: BatchJob)
        ensures
            job_wf(job@),
            job@ == start_view(texts@.map_values(|t: String| plan_for(t@))),
    {
        let mut plans: Vec<Vec<String>> = Vec::new();
        let mut i: usize = 0;
        let n = texts.len();
        while i < n
            invariant
                n == texts@.len(),
                i <= n,
                plan_views(plans@) == texts@.take(i as int).map_values(|t: String| plan_for(t@)),
            decreases n - i,
        {
            let p = plan_chunks(texts[i].as_str());
            let ghost before = plans@;
            plans.push(p);
            assert(plan_views(plans@) =~= plan_views(before).push(string_views(p@)));
            assert(texts@.take(i + 1).map_values(|t: String| plan_for(t@)) =~= texts@.take(
                i as int,
            ).map_values(|t: String| plan_for(t@)).push(plan_for(texts@[i as int]@)));
            i += 1;
        }
        assert(texts@.take(n as int) =~= texts@);
        let progress = Progress::start();
        assert forall|k: int| 0 <= k < plan_views(plans@).len() implies (#[trigger] plan_views(
            plans@,
        )[k]).len() > 0 by {
            law_plan_covers_text(texts@[k]@);
        }
        assert(string_views(progress.parts@) =~= progress.current@.map_values(
            |r: PieceReply| r.1,
        ));
        let job = BatchJob { plans, progress };
        assert(job@.current =~= Seq::<PieceReply>::empty());
        assert(job@.done =~= Seq::<Seq<PieceReply>>::empty());
        job
    }

    /// Starts the translation of a single text.
    pub fn new_single(text: &str) -> (job: BatchJob)
        ensures
            job_wf(job@),
            job@ == start_view(seq![plan_for(text@)]),
    {
        let mut texts: Vec<String> = Vec::new();
        texts.push(text.to_owned());
        let job = BatchJob::new(&texts);
        assert(job@.plans =~= seq![plan_for(text@)]);
        job
    }

    /// The step that the job asks for next.
    pub fn next_step(&self) -> (s: Step)
        ensures
            job_wf(self@),
            spec_next_step(self@, s),
    {
        proof {
            use_type_invariant(self);
        }
        let p = &self.progress;
        if p.failure.is_some() || p.text_index == self.plans.len() {
            return Step::Finished;
        }
        let piece = self.plans[p.text_index][p.chunk_index].clone();
        assert(self@.plans[p.text_index as int][p.chunk_index as int] == piece@);
        if p.retrying {
            Step::Retry { text: piece, delay_secs: 1 }
        } else {
            Step::Send(piece)
        }
    }

    /// Records the reply for the piece last asked for.
    pub fn on_reply(&mut self, reply: Result<(String, Option<String>), TranslateError>)
        requires
            !job_finished(old(self)@),
        ensures
            job_wf(final(self)@),
            final(self)@ == after_reply(old(self)@, reply_view(reply)),
    {
        proof {
            use_type_invariant(&*self);
        }
        let mut progress = Progress::start();
        assert(string_views(progress.parts@) =~= progress.current@.map_values(
            |r: PieceReply| r.1,
        ));
        std::mem::swap(&mut progress, &mut self.progress);
        record_reply(&self.plans, &mut progress, reply);
        self.progress = progress;
    }

    /// The outcome of a finished job: the first error that ended it, or the
    /// translations of all texts in input order, each combined from the
    /// replies for its pieces.
    pub fn finish(self) -> (r: Result<Vec<(String, Option<String>)>, TranslateError>)
        requires
            job_finished(self@),
        ensures
            self@.failure is Some ==> r == Err::<Vec<(String, Option<String>)>, TranslateError>(
                self@.failure->0,
            ),
            self@.failure is None ==> r is Ok && self@.done.len() == self@.plans.len()
                && results_view(r->Ok_0@) == self@.done.map_values(
                |rs: Seq<PieceReply>| combine(rs),
            ),
    {
        proof {
            use_type_invariant(&self);
        }
        let ghost v = self@;
        let BatchJob { plans: _, progress } = self;
        match progress.failure {
            Some(e) => Err(e),
            None => {
                let results = progress.results;
                assert(results_view(results@) =~= v.done.map_values(
                    |rs: Seq<PieceReply>| combine(rs),
                ));
                Ok(results)
            },
        }
    }

    /// The outcome of a finished job over a single text: the first error that
    /// ended it, or the translation of the text combined from the replies for
    /// its pieces.
    pub fn finish_single(self) -> (r: Result<(String, Option<String>), TranslateError>)
        requires
            job_finished(self@),
            self@.plans.len() == 1,
        ensures
            self@.failure is Some ==> r == Err::<(String, Option<String>), TranslateError>(
                self@.failure->0,
            ),
            self@.failure is None ==> r is Ok && self@.done.len() == 1 && translation_view(r->Ok_0)
                == combine(self@.done[0]),
    {
        let ghost v = self@;
        match self.finish() {
            Err(e) => Err(e),
            Ok(mut results) => {
                assert(results_view(results@).len() == results@.len());
                assert(results@.len() == 1);
                assert(results_view(results@)[0] == translation_view(results@[0]));
                Ok(results.remove(0))
            },
        }
    }
}

} // verus!
