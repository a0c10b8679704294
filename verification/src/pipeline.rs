//! The batching pipeline, as the decisions of its state machine.
//!
//! Samples arrive one by one, in whatever order their documents were read.
//! An [`Accumulator`] groups them, in arrival order, into batches of a fixed
//! size. Each [`Batch`] goes to the inference service in one call, and the
//! answer is paired back to the documents by position alone: the i-th
//! metadata belongs to the i-th sample of the batch. A batch whose call fails
//! is taken apart into one [`Retry`] per document, each with a call of its
//! own. Whoever drives the pipeline makes the calls and renames the files;
//! every decision in between is made here.

use vstd::prelude::*;
use vstd::string::StringExecFns;
use crate::biblio::{texts, BiblioError, BiblioResponse, Metadata};
use crate::constants::DOCUMENT_EXTENSION;
use crate::render::{filename_text, format_filename};

verus! {

/// Why a document ended without metadata.
#[derive(Debug)]
pub enum Reason {
    /// No text could be taken from the document.
    Sampling(BiblioError),
    /// The answer held no entry at the document's position in its batch.
    NoMetadata { index: usize },
    /// The document's own inference call failed.
    Inference(BiblioError),
}

/// How a document ended. Every document of a run ends exactly once. A batch
/// whose call failed is no end for its documents: each of them goes on to a
/// retry (see [`Resolution::Degraded`]).
#[derive(Debug)]
pub enum Outcome<D> {
    /// The document's file now bears `new_name`.
    Renamed { doc: D, new_name: String },
    /// No metadata could be had for the document, so it keeps its name.
    SampleFailed { doc: D, reason: Reason },
    /// The file system refused the rename, so the document keeps its name.
    RenameFailed { doc: D, cause: BiblioError },
}

impl<D> Outcome<D> {
    /// The document that the outcome is about.
    pub open spec fn doc(self) -> D {
        match self {
            Outcome::Renamed { doc, .. } => doc,
            Outcome::SampleFailed { doc, .. } => doc,
            Outcome::RenameFailed { doc, .. } => doc,
        }
    }
}

/// What is to happen to one document once its batch is answered.
#[derive(Debug)]
pub enum Step<D> {
    /// The document is to be renamed to `new_name`.
    Rename { doc: D, new_name: String },
    /// Nothing is left to do: the document has ended.
    Done(Outcome<D>),
}

/// The mathematical content of a [`Step`].
pub enum Decision<D> {
    Rename { doc: D, new_name: Seq<char> },
    Done(Outcome<D>),
}

impl<D> Decision<D> {
    /// The document that the decision is about.
    pub open spec fn doc(self) -> D {
        match self {
            Decision::Rename { doc, .. } => doc,
            Decision::Done(outcome) => outcome.doc(),
        }
    }
}

impl<D> View for Step<D> {
    type V = Decision<D>;

    open spec fn view(&self) -> Decision<D> {
        match *self {
            Step::Rename { doc, new_name } => Decision::Rename { doc, new_name: new_name@ },
            Step::Done(outcome) => Decision::Done(outcome),
        }
    }
}

/// Documents with their sample texts, as mathematical values.
pub open spec fn samples_of<D>(items: Seq<(D, String)>) -> Seq<(D, Seq<char>)> {
    items.map_values(|p: (D, String)| (p.0, p.1@))
}

/// The sample texts alone, in the order of their documents.
pub open spec fn prompts_of<D>(items: Seq<(D, Seq<char>)>) -> Seq<Seq<char>> {
    items.map_values(|p: (D, Seq<char>)| p.1)
}

/// An ordered group of documents with their samples, answered by one
/// inference call.
#[derive(Debug)]
pub struct Batch<D> {
    items: Vec<(D, String)>,
}

impl<D> View for Batch<D> {
    type V = Seq<(D, Seq<char>)>;

    closed spec fn view(&self) -> Seq<(D, Seq<char>)> {
        samples_of(self.items@)
    }
}

/// One document of a failed batch, to be tried again in a call of its own.
#[derive(Debug)]
pub struct Retry<D> {
    doc: D,
    text: String,
}

impl<D> View for Retry<D> {
    type V = (D, Seq<char>);

    closed spec fn view(&self) -> (D, Seq<char>) {
        (self.doc, self.text@)
    }
}

/// What follows from the answer to a batch.
#[derive(Debug)]
pub enum Resolution<D> {
    /// The call succeeded: one step per document, in batch order.
    Paired(Vec<Step<D>>),
    /// The call failed: one retry per document, in batch order.
    Degraded { cause: BiblioError, retries: Vec<Retry<D>> },
}

/// The mathematical content of a list of answers.
pub open spec fn metadata_of(answers: Seq<BiblioResponse>) -> Seq<Metadata> {
    answers.map_values(|r: BiblioResponse| r@)
}

/// The mathematical content of a list of steps.
pub open spec fn decisions_of<D>(steps: Seq<Step<D>>) -> Seq<Decision<D>> {
    steps.map_values(|s: Step<D>| s@)
}

/// The mathematical content of a list of retries.
pub open spec fn retries_of<D>(retries: Seq<Retry<D>>) -> Seq<(D, Seq<char>)> {
    retries.map_values(|r: Retry<D>| r@)
}

/// The file name that a rendered name becomes: the extension is appended.
pub open spec fn final_name(rendered: Seq<char>) -> Seq<char> {
    rendered + DOCUMENT_EXTENSION@
}

/// What is decided for the document at position `index` of a batch that was
/// answered by `answers`: a rename to the name that its own entry renders to
/// under `template`, or, where the answer is too short to hold an entry at
/// that position, the end of the document without metadata.
pub open spec fn paired_at<D>(
    doc: D,
    index: int,
    answers: Seq<Metadata>,
    template: Seq<char>,
) -> Decision<D> {
    if 0 <= index < answers.len() {
        Decision::Rename { doc, new_name: final_name(filename_text(answers[index], template)) }
    } else {
        Decision::Done(
            Outcome::SampleFailed { doc, reason: Reason::NoMetadata { index: index as usize } },
        )
    }
}

/// The decisions for a whole batch: one per document, in batch order, each
/// taken from the answer's entry at the same position. Entries beyond the
/// batch's length are ignored.
pub open spec fn paired<D>(
    items: Seq<(D, Seq<char>)>,
    answers: Seq<Metadata>,
    template: Seq<char>,
) -> Seq<Decision<D>> {
    Seq::new(items.len(), |i: int| paired_at(items[i].0, i, answers, template))
}

/// What is decided for a document that is tried again on its own, from the
/// reply to its call: an answer is read as that of a batch of one, and a
/// failed call ends the document.
pub open spec fn retried<D>(
    doc: D,
    reply: Result<Seq<Metadata>, BiblioError>,
    template: Seq<char>,
) -> Decision<D> {
    match reply {
        Ok(answers) => paired_at(doc, 0, answers, template),
        Err(cause) => Decision::Done(
            Outcome::SampleFailed { doc, reason: Reason::Inference(cause) },
        ),
    }
}

/// The mathematical content of the reply to an inference call.
pub open spec fn reply_of(reply: Result<Vec<BiblioResponse>, BiblioError>) -> Result<
    Seq<Metadata>,
    BiblioError,
> {
    match reply {
        Ok(answers) => Ok(metadata_of(answers@)),
        Err(cause) => Err(cause),
    }
}

/// The step for one document at position `index` of its batch.
fn pair_one<D>(doc: D, index: usize, answers: &Vec<BiblioResponse>, template: &str) -> (step: Step<
    D,
>)
    ensures
        step@ == paired_at(doc, index as int, metadata_of(answers@), template@),
{
    if index < answers.len() {
        let mut new_name = format_filename(&answers[index], template);
        new_name.append(DOCUMENT_EXTENSION);
        Step::Rename { doc, new_name }
    } else {
        Step::Done(Outcome::SampleFailed { doc, reason: Reason::NoMetadata { index } })
    }
}

impl<D> Batch<D> {
    /// A batch of the given documents and samples, in their order.
    pub fn new(items: Vec<(D, String)>) -> (batch: Batch<D>)
        ensures
            batch@ == samples_of(items@),
    {
        Batch { items }
    }

    /// The number of documents in the batch.
    pub fn len(&self) -> (n: usize)
        ensures
            n == self@.len(),
    {
        self.items.len()
    }

    /// The sample texts, in batch order: the input of the inference call.
    pub fn samples(&self) -> (prompts: Vec<String>)
        ensures
            texts(prompts@) == prompts_of(self@),
    {
        let mut prompts: Vec<String> = Vec::with_capacity(self.items.len());
        let mut i: usize = 0;
        while i < self.items.len()
            invariant
                i <= self.items.len(),
                prompts@.len() == i,
                forall|k: int| 0 <= k < i ==> (#[trigger] prompts@[k])@ == self.items@[k].1@,
            decreases self.items.len() - i,
        {
            prompts.push(self.items[i].1.clone());
            i = i + 1;
        }
        assert(texts(prompts@) =~= prompts_of(self@));
        prompts
    }

    /// Takes the answer to the batch's call. A successful answer is paired
    /// with the documents by position. A failed call takes the batch apart
    /// into one retry per document.
    pub fn resolve(self, reply: Result<Vec<BiblioResponse>, BiblioError>, template: &str) -> (next:
        Resolution<D>)
        ensures
            match reply_of(reply) {
                Ok(answers) => {
                    &&& next matches Resolution::Paired(steps)
                    &&& decisions_of(steps@) == paired(self@, answers, template@)
                },
                Err(e) => {
                    &&& next matches Resolution::Degraded { cause, retries }
                    &&& cause == e
                    &&& retries_of(retries@) == self@
                },
            },
    {
        let ghost items = self.items@;
        let count = self.items.len();
        match reply {
            Ok(answers) => {
                let mut steps: Vec<Step<D>> = Vec::with_capacity(count);
                let mut index: usize = 0;
                for item in it: self.items
                    invariant
                        it.seq() == items,
                        items.len() == count,
                        index == it.index(),
                        steps@.len() == index,
                        forall|k: int|
                            0 <= k < index ==> (#[trigger] steps@[k])@ == paired_at(
                                items[k].0,
                                k,
                                metadata_of(answers@),
                                template@,
                            ),
                {
                    let (doc, _text) = item;
                    steps.push(pair_one(doc, index, &answers, template));
                    index = index + 1;
                }
                assert(decisions_of(steps@) =~= paired(
                    samples_of(items),
                    metadata_of(answers@),
                    template@,
                ));
                Resolution::Paired(steps)
            },
            Err(cause) => {
                let mut retries: Vec<Retry<D>> = Vec::with_capacity(count);
                for item in it: self.items
                    invariant
                        it.seq() == items,
                        retries@.len() == it.index(),
                        forall|k: int|
                            0 <= k < it.index() ==> (#[trigger] retries@[k])@ == (
                                items[k].0,
                                items[k].1@,
                            ),
                {
                    let (doc, text) = item;
                    retries.push(Retry { doc, text });
                }
                assert(retries_of(retries@) =~= samples_of(items));
                Resolution::Degraded { cause, retries }
            },
        }
    }
}

impl<D> Retry<D> {
    /// The document that is tried again.
    pub fn doc(&self) -> (doc: &D)
        ensures
            *doc == self@.0,
    {
        &self.doc
    }

    /// The sample text, alone: the input of the retry's inference call.
    pub fn samples(&self) -> (prompts: Vec<String>)
        ensures
            texts(prompts@) == seq![self@.1],
    {
        let mut prompts: Vec<String> = Vec::with_capacity(1);
        prompts.push(self.text.clone());
        assert(texts(prompts@) =~= seq![self@.1]);
        prompts
    }

    /// Takes the reply to the retry's call. There is no further retry.
    pub fn resolve(self, reply: Result<Vec<BiblioResponse>, BiblioError>, template: &str) -> (step:
        Step<D>)
        ensures
            step@ == retried(self@.0, reply_of(reply), template@),
    {
        match reply {
            Ok(answers) => pair_one(self.doc, 0, &answers, template),
            Err(cause) => Step::Done(
                Outcome::SampleFailed { doc: self.doc, reason: Reason::Inference(cause) },
            ),
        }
    }
}

/// How a rename that was carried out ends its document.
pub fn rename_outcome<D>(doc: D, new_name: String, renamed: Result<(), BiblioError>) -> (outcome:
    Outcome<D>)
    ensures
        outcome == match renamed {
            Ok(_) => Outcome::Renamed { doc, new_name },
            Err(cause) => Outcome::RenameFailed { doc, cause },
        },
{
    match renamed {
        Ok(_) => Outcome::Renamed { doc, new_name },
        Err(cause) => Outcome::RenameFailed { doc, cause },
    }
}

/// Whether one more sample completes a batch of `size` out of `pending`.
pub open spec fn fills<T>(pending: Seq<T>, size: nat) -> bool {
    pending.len() + 1 >= size
}

/// The length of a full batch where `size` is asked for: a batch holds at
/// least one sample.
pub open spec fn full_len(size: nat) -> nat {
    if size == 0 {
        1
    } else {
        size
    }
}

/// Collects samples, in arrival order, until a batch is full.
#[derive(Debug)]
pub struct Accumulator<D> {
    pending: Vec<(D, String)>,
    batch_size: usize,
}

/// What the accumulator asks for after one arrival.
#[derive(Debug)]
pub enum Collected<D> {
    /// The sample is held back: its batch is not full yet.
    Waiting,
    /// A batch is full and is to be sent.
    Dispatch(Batch<D>),
    /// The document could not be sampled and has ended.
    Done(Outcome<D>),
}

impl<D> Accumulator<D> {
    /// The samples that wait for their batch to fill, in arrival order.
    pub closed spec fn pending(&self) -> Seq<(D, Seq<char>)> {
        samples_of(self.pending@)
    }

    /// The number of samples that make a batch.
    pub closed spec fn batch_size(&self) -> nat {
        self.batch_size as nat
    }

    #[verifier::type_invariant]
    spec fn never_full(&self) -> bool {
        self.pending@.len() == 0 || self.pending@.len() < self.batch_size
    }

    /// An accumulator with nothing pending.
    pub fn new(batch_size: usize) -> (acc: Accumulator<D>)
        ensures
            acc.pending() == Seq::<(D, Seq<char>)>::empty(),
            acc.batch_size() == batch_size,
    {
        let acc = Accumulator { pending: Vec::new(), batch_size };
        assert(acc.pending() =~= Seq::<(D, Seq<char>)>::empty());
        acc
    }

    /// Takes one arrival. A sample joins the pending ones, and where that
    /// fills a batch, all of them leave as that batch, in arrival order. A
    /// document that could not be sampled ends at once and leaves the pending
    /// samples as they are.
    pub fn accept(&mut self, arrival: Result<(D, String), (D, BiblioError)>) -> (next: Collected<D>)
        ensures
            final(self).batch_size() == old(self).batch_size(),
            final(self).pending().len() < full_len(old(self).batch_size()),
            match arrival {
                Ok((doc, text)) => {
                    let grown = old(self).pending().push((doc, text@));
                    if fills(old(self).pending(), old(self).batch_size()) {
                        &&& next matches Collected::Dispatch(batch)
                        &&& batch@ == grown
                        &&& batch@.len() == full_len(old(self).batch_size())
                        &&& final(self).pending() == Seq::<(D, Seq<char>)>::empty()
                    } else {
                        &&& next is Waiting
                        &&& final(self).pending() == grown
                    }
                },
                Err((doc, cause)) => {
                    &&& next == Collected::Done(
                        Outcome::SampleFailed { doc, reason: Reason::Sampling(cause) },
                    )
                    &&& final(self).pending() == old(self).pending()
                },
            },
    {
        proof {
            use_type_invariant(&*self);
        }
        match arrival {
            Ok((doc, text)) => {
                let mut items: Vec<(D, String)> = Vec::new();
                core::mem::swap(&mut self.pending, &mut items);
                items.push((doc, text));
                assert(samples_of(items@) =~= old(self).pending().push((doc, text@)));
                if items.len() >= self.batch_size {
                    assert(self.pending() =~= Seq::<(D, Seq<char>)>::empty());
                    Collected::Dispatch(Batch { items })
                } else {
                    core::mem::swap(&mut self.pending, &mut items);
                    Collected::Waiting
                }
            },
            Err((doc, cause)) => Collected::Done(
                Outcome::SampleFailed { doc, reason: Reason::Sampling(cause) },
            ),
        }
    }

    /// Hands out what is pending once no more samples will arrive: a last,
    /// shorter batch, or nothing where nothing is pending.
    pub fn flush(&mut self) -> (last: Option<Batch<D>>)
        ensures
            final(self).batch_size() == old(self).batch_size(),
            final(self).pending() == Seq::<(D, Seq<char>)>::empty(),
            match last {
                Some(batch) => {
                    &&& batch@ == old(self).pending()
                    &&& 0 < batch@.len() < full_len(old(self).batch_size())
                },
                None => old(self).pending().len() == 0,
            },
    {
        proof {
            use_type_invariant(&*self);
        }
        let mut items: Vec<(D, String)> = Vec::new();
        core::mem::swap(&mut self.pending, &mut items);
        assert(self.pending() =~= Seq::<(D, Seq<char>)>::empty());
        if items.len() == 0 {
            None
        } else {
            Some(Batch { items })
        }
    }
}

/// The batches that an accumulator hands out when it holds `pending`,
/// `arrivals` come in one by one, and it is flushed after the last.
pub open spec fn emitted<T>(pending: Seq<T>, arrivals: Seq<T>, size: nat) -> Seq<Seq<T>>
    decreases arrivals.len(),
{
    if arrivals.len() == 0 {
        if pending.len() == 0 {
            Seq::empty()
        } else {
            seq![pending]
        }
    } else {
        let grown = pending.push(arrivals[0]);
        if fills(pending, size) {
            seq![grown] + emitted(Seq::empty(), arrivals.drop_first(), size)
        } else {
            emitted(grown, arrivals.drop_first(), size)
        }
    }
}

/// The mathematical content of a list of batches.
pub open spec fn batches_of<D>(batches: Seq<Batch<D>>) -> Seq<Seq<(D, Seq<char>)>> {
    batches.map_values(|b: Batch<D>| b@)
}

/// Groups samples that are all at hand into batches, as an accumulator does
/// that takes them one by one and is flushed after the last.
pub fn batch_all<D>(samples: Vec<(D, String)>, batch_size: usize) -> (batches: Vec<Batch<D>>)
    ensures
        batches_of(batches@) == emitted(
            Seq::empty(),
            samples_of(samples@),
            batch_size as nat,
        ),
{
    let ghost all = samples_of(samples@);
    let ghost size = batch_size as nat;
    let mut acc: Accumulator<D> = Accumulator::new(batch_size);
    let mut batches: Vec<Batch<D>> = Vec::new();
    assert(all.skip(0) =~= all);
    assert(batches_of(batches@) + emitted(acc.pending(), all, size) =~= emitted(
        Seq::empty(),
        all,
        size,
    ));
    for item in it: samples
        invariant
            it.seq() == samples@,
            all == samples_of(samples@),
            size == batch_size,
            acc.batch_size() == size,
            batches_of(batches@) + emitted(acc.pending(), all.skip(it.index() as int), size)
                == emitted(Seq::empty(), all, size),
    {
        let ghost before = acc.pending();
        let ghost left = all.skip(it.index() as int);
        let ghost done = batches_of(batches@);
        let (doc, text) = item;
        assert(left.len() > 0 && left[0] == (doc, text@));
        assert(left.drop_first() =~= all.skip(it.index() + 1));
        match acc.accept(Ok((doc, text))) {
            Collected::Dispatch(batch) => {
                batches.push(batch);
                assert(batches_of(batches@) =~= done + seq![batch@]);
                assert(batches_of(batches@) + emitted(acc.pending(), left.drop_first(), size)
                    =~= done + emitted(before, left, size));
            },
            _ => {},
        }
    }
    assert(all.skip(all.len() as int) =~= Seq::<(D, Seq<char>)>::empty());
    let ghost done = batches_of(batches@);
    let ghost before = acc.pending();
    match acc.flush() {
        Some(batch) => {
            batches.push(batch);
            assert(batches_of(batches@) =~= done + seq![before]);
        },
        None => {
            assert(done + Seq::<Seq<(D, Seq<char>)>>::empty() =~= done);
        },
    }
    batches
}

/// The replies to one batch: that to its own call and, should that call have
/// failed, those to the retries of its documents, in batch order.
pub struct Replies {
    pub call: Result<Seq<Metadata>, BiblioError>,
    pub retries: Seq<Result<Seq<Metadata>, BiblioError>>,
}

/// The decisions for a batch under its replies: paired by position where the
/// call succeeded, and else taken for each document from its own retry.
pub open spec fn resolved<D>(
    items: Seq<(D, Seq<char>)>,
    replies: Replies,
    template: Seq<char>,
) -> Seq<Decision<D>> {
    match replies.call {
        Ok(answers) => paired(items, answers, template),
        Err(_) => Seq::new(
            items.len(),
            |i: int| retried(items[i].0, replies.retries[i], template),
        ),
    }
}

/// The decisions of a whole run: those of each batch, batch after batch.
pub open spec fn run<D>(
    batches: Seq<Seq<(D, Seq<char>)>>,
    replies: Seq<Replies>,
    template: Seq<char>,
) -> Seq<Decision<D>>
    decreases batches.len(),
{
    if batches.len() == 0 {
        Seq::empty()
    } else {
        resolved(batches[0], replies[0], template) + run(
            batches.drop_first(),
            replies.drop_first(),
            template,
        )
    }
}

/// Batching loses and reorders nothing: the batches that come out, laid end
/// to end, are the pending samples followed by the arrivals.
pub proof fn lemma_batches_keep_arrival_order<T>(pending: Seq<T>, arrivals: Seq<T>, size: nat)
    ensures
        emitted(pending, arrivals, size).flatten() == pending + arrivals,
    decreases arrivals.len(),
{
    let out = emitted(pending, arrivals, size);
    if arrivals.len() == 0 {
        if pending.len() == 0 {
            assert(out.flatten() =~= pending + arrivals);
        } else {
            assert(out.drop_first() =~= Seq::<Seq<T>>::empty());
            assert(out.drop_first().flatten() =~= Seq::<T>::empty());
            assert(out.flatten() =~= pending + arrivals);
        }
    } else {
        let grown = pending.push(arrivals[0]);
        let rest = arrivals.drop_first();
        assert(grown + rest =~= pending + arrivals);
        if fills(pending, size) {
            lemma_batches_keep_arrival_order(Seq::<T>::empty(), rest, size);
            assert(out.drop_first() =~= emitted(Seq::<T>::empty(), rest, size));
            assert(Seq::<T>::empty() + rest =~= rest);
            assert(out.flatten() =~= grown + rest);
        } else {
            lemma_batches_keep_arrival_order(grown, rest, size);
        }
    }
}

/// No batch is empty or longer than a full one, and only the last batch can
/// be shorter.
pub proof fn lemma_batches_are_full<T>(pending: Seq<T>, arrivals: Seq<T>, size: nat)
    requires
        pending.len() < full_len(size),
    ensures
        forall|b: int|
            0 <= b < emitted(pending, arrivals, size).len() ==> 0 < (#[trigger] emitted(
                pending,
                arrivals,
                size,
            )[b]).len() <= full_len(size),
        forall|b: int|
            0 <= b < emitted(pending, arrivals, size).len() - 1 ==> (#[trigger] emitted(
                pending,
                arrivals,
                size,
            )[b]).len() == full_len(size),
    decreases arrivals.len(),
{
    let out = emitted(pending, arrivals, size);
    if arrivals.len() == 0 {
        if pending.len() > 0 {
            assert(out =~= seq![pending]);
        }
    } else {
        let grown = pending.push(arrivals[0]);
        let rest = arrivals.drop_first();
        if fills(pending, size) {
            let tail = emitted(Seq::<T>::empty(), rest, size);
            lemma_batches_are_full(Seq::<T>::empty(), rest, size);
            assert(out =~= seq![grown] + tail);
            assert(grown.len() == full_len(size));
            assert forall|b: int| 0 <= b < out.len() implies 0 < (#[trigger] out[b]).len()
                <= full_len(size) by {
                if b > 0 {
                    assert(out[b] == tail[b - 1]);
                }
            }
            assert forall|b: int| 0 <= b < out.len() - 1 implies (#[trigger] out[b]).len()
                == full_len(size) by {
                if b > 0 {
                    assert(out[b] == tail[b - 1]);
                }
            }
        } else {
            lemma_batches_are_full(grown, rest, size);
            assert(out == emitted(grown, rest, size));
        }
    }
}

/// Pairing goes by position alone. The document at a position gets the name
/// that the answer's entry at the same position renders to. Where the answer
/// is shorter than the batch, the documents behind its end are left without
/// metadata, and entries behind the batch's end are never looked at.
pub proof fn lemma_pairing_is_positional<D>(
    items: Seq<(D, Seq<char>)>,
    answers: Seq<Metadata>,
    template: Seq<char>,
)
    ensures
        paired(items, answers, template).len() == items.len(),
        forall|i: int|
            0 <= i < items.len() && i < answers.len() ==> #[trigger] paired(
                items,
                answers,
                template,
            )[i] == (Decision::Rename {
                doc: items[i].0,
                new_name: final_name(filename_text(answers[i], template)),
            }),
        forall|i: int|
            answers.len() <= i < items.len() ==> #[trigger] paired(items, answers, template)[i]
                == Decision::Done(
                Outcome::SampleFailed {
                    doc: items[i].0,
                    reason: Reason::NoMetadata { index: i as usize },
                },
            ),
        paired(items, answers, template) == paired(
            items,
            answers.take(if answers.len() < items.len() {
                answers.len() as int
            } else {
                items.len() as int
            }),
            template,
        ),
{
    let cut = if answers.len() < items.len() {
        answers.len() as int
    } else {
        items.len() as int
    };
    assert(paired(items, answers, template) =~= paired(items, answers.take(cut), template));
}

/// A batch ends every one of its documents exactly once, whatever the
/// replies: there is one decision per document, about that document, in
/// batch order.
pub proof fn lemma_batch_decides_each_document<D>(
    items: Seq<(D, Seq<char>)>,
    replies: Replies,
    template: Seq<char>,
)
    ensures
        resolved(items, replies, template).len() == items.len(),
        forall|i: int|
            0 <= i < items.len() ==> (#[trigger] resolved(items, replies, template)[i]).doc()
                == items[i].0,
{
}

/// A run ends every document exactly once, whatever the batch size and the
/// replies: the decisions are as many as the samples that arrived, and the
/// k-th decision is about the document of the k-th arrival.
pub proof fn lemma_run_decides_each_document<D>(
    pending: Seq<(D, Seq<char>)>,
    arrivals: Seq<(D, Seq<char>)>,
    size: nat,
    replies: Seq<Replies>,
    template: Seq<char>,
)
    ensures
        run(emitted(pending, arrivals, size), replies, template).len() == pending.len()
            + arrivals.len(),
        forall|k: int|
            0 <= k < pending.len() + arrivals.len() ==> (#[trigger] run(
                emitted(pending, arrivals, size),
                replies,
                template,
            )[k]).doc() == (pending + arrivals)[k].0,
    decreases arrivals.len(),
{
    let batches = emitted(pending, arrivals, size);
    let out = run(batches, replies, template);
    if arrivals.len() == 0 {
        if pending.len() > 0 {
            lemma_batch_decides_each_document(pending, replies[0], template);
            assert(batches.drop_first() =~= Seq::<Seq<(D, Seq<char>)>>::empty());
            assert(run(batches.drop_first(), replies.drop_first(), template)
                =~= Seq::<Decision<D>>::empty());
            assert(out =~= resolved(pending, replies[0], template));
        }
    } else {
        let grown = pending.push(arrivals[0]);
        let rest = arrivals.drop_first();
        assert(grown + rest =~= pending + arrivals);
        if fills(pending, size) {
            let empty = Seq::<(D, Seq<char>)>::empty();
            lemma_batch_decides_each_document(grown, replies[0], template);
            lemma_run_decides_each_document(empty, rest, size, replies.drop_first(), template);
            assert(batches.drop_first() =~= emitted(empty, rest, size));
            assert(empty + rest =~= rest);
            let head = resolved(grown, replies[0], template);
            let tail = run(emitted(empty, rest, size), replies.drop_first(), template);
            assert(out == head + tail);
            assert forall|k: int| 0 <= k < pending.len() + arrivals.len() implies (
            #[trigger] out[k]).doc() == (pending + arrivals)[k].0 by {
                if k >= grown.len() {
                    assert(out[k] == tail[k - grown.len()]);
                } else {
                    assert(out[k] == head[k]);
                }
            }
        } else {
            lemma_run_decides_each_document(grown, rest, size, replies, template);
        }
    }
}

/// The order in which the samples arrive does not corrupt the pairing. Let
/// the documents be sampled in any order, `order` telling for each arrival
/// which of `samples` it is. Then every batch holds each document together
/// with its own sample, and the decision that stands at the place of an
/// arrival is about the document that arrived there.
pub proof fn lemma_arrival_order_keeps_pairing<D>(
    samples: Seq<(D, Seq<char>)>,
    order: Seq<int>,
    size: nat,
    replies: Seq<Replies>,
    template: Seq<char>,
)
    requires
        forall|j: int| 0 <= j < order.len() ==> 0 <= #[trigger] order[j] < samples.len(),
    ensures
        ({
            let arrivals = Seq::new(order.len(), |j: int| samples[order[j]]);
            let batches = emitted(Seq::empty(), arrivals, size);
            &&& batches.flatten() == arrivals
            &&& run(batches, replies, template).len() == order.len()
            &&& forall|j: int|
                0 <= j < order.len() ==> (#[trigger] run(batches, replies, template)[j]).doc()
                    == samples[order[j]].0
        }),
{
    let arrivals = Seq::new(order.len(), |j: int| samples[order[j]]);
    let empty = Seq::<(D, Seq<char>)>::empty();
    lemma_batches_keep_arrival_order(empty, arrivals, size);
    lemma_run_decides_each_document(empty, arrivals, size, replies, template);
    assert(empty + arrivals =~= arrivals);
}

/// The retries of a failed batch do not depend on each other: what is
/// decided for one document follows from the reply to its own retry alone.
pub proof fn lemma_retries_are_independent<D>(
    items: Seq<(D, Seq<char>)>,
    cause: BiblioError,
    first: Seq<Result<Seq<Metadata>, BiblioError>>,
    second: Seq<Result<Seq<Metadata>, BiblioError>>,
    template: Seq<char>,
    i: int,
)
    requires
        0 <= i < items.len(),
        first[i] == second[i],
    ensures
        resolved(items, Replies { call: Err(cause), retries: first }, template)[i] == resolved(
            items,
            Replies { call: Err(cause), retries: second },
            template,
        )[i],
        resolved(items, Replies { call: Err(cause), retries: first }, template)[i] == retried(
            items[i].0,
            first[i],
            template,
        ),
{
}

} // verus!
