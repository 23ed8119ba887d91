use vstd::prelude::*;
use vstd::string::*;
use crate::descriptor::{DescriptorModel, EncryptionDescriptor, ExtractError};
use crate::validator::{candidate_matches, validate};

verus! {

/// What became of one document.
#[derive(Clone, Debug)]
pub enum Outcome {
    /// The candidate at `candidate_index` of the dictionary unlocks it.
    Found { password: String, candidate_index: usize },
    /// No candidate of the dictionary unlocks it.
    Exhausted,
    /// No descriptor could be read from it.
    ExtractionFailed { reason: ExtractError },
}

/// The mathematical content of an `Outcome`.
pub enum OutcomeModel {
    Found { password: Seq<char>, candidate_index: nat },
    Exhausted,
    ExtractionFailed { reason: ExtractError },
}

impl View for Outcome {
    type V = OutcomeModel;

    open spec fn view(&self) -> OutcomeModel {
        match *self {
            Outcome::Found { password, candidate_index } => OutcomeModel::Found {
                password: password@,
                candidate_index: candidate_index as nat,
            },
            Outcome::Exhausted => OutcomeModel::Exhausted,
            Outcome::ExtractionFailed { reason } => OutcomeModel::ExtractionFailed { reason },
        }
    }
}

/// One document to work on: where it is, and its encryption parameters.
#[derive(Clone, Debug)]
pub struct DocumentTask {
    pub path: String,
    pub descriptor: EncryptionDescriptor,
}

/// The texts of a sequence of strings.
pub open spec fn texts(v: Seq<String>) -> Seq<Seq<char>> {
    Seq::new(v.len(), |i: int| v[i]@)
}

/// Of the first `n` lines, those that are not empty, in their order.
pub open spec fn kept_lines(lines: Seq<Seq<char>>, n: nat) -> Seq<Seq<char>>
    decreases n,
{
    if n == 0 {
        Seq::empty()
    } else if lines[n - 1].len() == 0 {
        kept_lines(lines, (n - 1) as nat)
    } else {
        kept_lines(lines, (n - 1) as nat).push(lines[n - 1])
    }
}

/// What is kept of the first `n` lines holds no empty line and no more
/// than `n` lines; where no line is empty, every line is kept.
pub proof fn lemma_kept_lines(lines: Seq<Seq<char>>, n: nat)
    requires
        n <= lines.len(),
    ensures
        kept_lines(lines, n).len() <= n,
        forall|i: int| 0 <= i < kept_lines(lines, n).len() ==> kept_lines(lines, n)[i].len() > 0,
        (forall|j: int| 0 <= j < n ==> lines[j].len() > 0) ==> kept_lines(lines, n)
            == lines.subrange(0, n as int),
    decreases n,
{
    if n > 0 {
        lemma_kept_lines(lines, (n - 1) as nat);
        if forall|j: int| 0 <= j < n ==> lines[j].len() > 0 {
            assert(lines.subrange(0, n as int) =~= lines.subrange(0, n - 1).push(lines[n - 1]));
        }
    } else {
        assert(kept_lines(lines, n) =~= lines.subrange(0, 0));
    }
}

/// The dictionary: the candidates in the order in which they are tried.
/// Nothing changes it once it is built, so any number of readers may share it.
#[derive(Clone, Debug)]
pub struct CandidateSource {
    entries: Vec<String>,
}

impl View for CandidateSource {
    type V = Seq<Seq<char>>;

    closed spec fn view(&self) -> Seq<Seq<char>> {
        texts(self.entries@)
    }
}

impl CandidateSource {
    /// Builds the dictionary from the lines of a word list, each without its
    /// line terminator. Empty lines are left out; nothing else is trimmed,
    /// and a line that occurs twice is kept twice.
    pub fn from_lines(lines: &Vec<String>) -> (source: CandidateSource)
        ensures
            source@ == kept_lines(texts(lines@), lines.len() as nat),
    {
        let mut entries: Vec<String> = Vec::new();
        let mut i: usize = 0;
        while i < lines.len()
            invariant
                i <= lines.len(),
                texts(entries@) == kept_lines(texts(lines@), i as nat),
            decreases lines.len() - i,
        {
            if !lines[i].as_str().is_empty() {
                let ghost before = texts(entries@);
                entries.push(lines[i].clone());
                assert(texts(entries@) =~= before.push(lines@[i as int]@));
            }
            i += 1;
        }
        CandidateSource { entries }
    }

    /// The number of candidates.
    pub fn len(&self) -> (n: usize)
        ensures
            n == self@.len(),
    {
        self.entries.len()
    }

    /// The candidate at position `i`.
    pub fn get(&self, i: usize) -> (text: &String)
        requires
            i < self@.len(),
        ensures
            text@ == self@[i as int],
    {
        &self.entries[i]
    }
}

/// Whether candidate `i` of the dictionary unlocks the document.
pub open spec fn matches_at(d: DescriptorModel, dict: Seq<Seq<char>>, i: int) -> bool {
    candidate_matches(d, dict[i])
}

/// Whether candidate `k` unlocks the document and none before it does.
pub open spec fn is_first_match(d: DescriptorModel, dict: Seq<Seq<char>>, k: int) -> bool {
    &&& 0 <= k < dict.len()
    &&& matches_at(d, dict, k)
    &&& forall|j: int| 0 <= j < k ==> !matches_at(d, dict, j)
}

/// Whether no candidate of the dictionary unlocks the document.
pub open spec fn no_match(d: DescriptorModel, dict: Seq<Seq<char>>) -> bool {
    forall|j: int| 0 <= j < dict.len() ==> !matches_at(d, dict, j)
}

/// The outcome of trying the candidates from position `i` on, in order.
pub open spec fn search_from(d: DescriptorModel, dict: Seq<Seq<char>>, i: nat) -> OutcomeModel
    decreases dict.len() - i,
{
    if i >= dict.len() {
        OutcomeModel::Exhausted
    } else if matches_at(d, dict, i as int) {
        OutcomeModel::Found { password: dict[i as int], candidate_index: i }
    } else {
        search_from(d, dict, i + 1)
    }
}

/// The outcome that a document with descriptor `d` has under the dictionary.
pub open spec fn search_outcome(d: DescriptorModel, dict: Seq<Seq<char>>) -> OutcomeModel {
    search_from(d, dict, 0)
}

/// Where one worker stands in the dictionary for the document it works on.
#[derive(Clone, Copy, Debug)]
pub struct Cursor {
    pub next: usize,
}

/// What one step of the search gave.
#[derive(Clone, Debug)]
pub enum Step {
    /// The candidate did not match; the cursor moved on.
    Continue,
    /// The search is over, with this outcome.
    Finished(Outcome),
    /// Shutdown was requested: the document is left without an outcome.
    Abandoned,
}

/// The mathematical content of a `Step`.
pub enum StepModel {
    Continue,
    Finished(OutcomeModel),
    Abandoned,
}

impl View for Step {
    type V = StepModel;

    open spec fn view(&self) -> StepModel {
        match *self {
            Step::Continue => StepModel::Continue,
            Step::Finished(o) => StepModel::Finished(o@),
            Step::Abandoned => StepModel::Abandoned,
        }
    }
}

/// What a step gives with the cursor at `next`: nothing is tried once
/// shutdown was requested; past the last candidate the search ends in
/// `Exhausted`; a candidate that matches ends it in `Found`; any other
/// candidate lets it go on.
pub open spec fn step_at(
    d: DescriptorModel,
    dict: Seq<Seq<char>>,
    next: nat,
    cancelled: bool,
) -> StepModel {
    if cancelled {
        StepModel::Abandoned
    } else if next >= dict.len() {
        StepModel::Finished(OutcomeModel::Exhausted)
    } else if matches_at(d, dict, next as int) {
        StepModel::Finished(OutcomeModel::Found { password: dict[next as int], candidate_index: next })
    } else {
        StepModel::Continue
    }
}

impl Cursor {
    /// A cursor at the first candidate.
    pub fn new() -> (c: Cursor)
        ensures
            c.next == 0,
    {
        Cursor { next: 0 }
    }

    /// Tries the candidate under the cursor, unless shutdown was requested.
    pub fn advance(
        &mut self,
        desc: &EncryptionDescriptor,
        source: &CandidateSource,
        cancelled: bool,
    ) -> (step: Step)
        ensures
            step@ == step_at(desc@, source@, old(self).next as nat, cancelled),
            final(self).next == if step is Continue {
                old(self).next + 1
            } else {
                old(self).next as int
            },
    {
        if cancelled {
            return Step::Abandoned;
        }
        if self.next >= source.len() {
            return Step::Finished(Outcome::Exhausted);
        }
        let candidate = source.get(self.next);
        if validate(desc, candidate.as_str()) {
            Step::Finished(Outcome::Found { password: candidate.clone(), candidate_index: self.next })
        } else {
            self.next = self.next + 1;
            Step::Continue
        }
    }
}

/// Tries the candidates in dictionary order and stops at the first that
/// unlocks the document.
pub fn crack(desc: &EncryptionDescriptor, source: &CandidateSource) -> (out: Outcome)
    ensures
        out@ == search_outcome(desc@, source@),
        out matches Outcome::Found { password, candidate_index } ==> is_first_match(
            desc@,
            source@,
            candidate_index as int,
        ) && password@ == source@[candidate_index as int],
        out is Exhausted <==> no_match(desc@, source@),
        !(out is ExtractionFailed),
{
    let mut cursor = Cursor::new();
    loop
        invariant
            cursor.next <= source@.len(),
            forall|j: int| 0 <= j < cursor.next ==> !matches_at(desc@, source@, j),
            search_outcome(desc@, source@) == search_from(desc@, source@, cursor.next as nat),
        decreases source@.len() - cursor.next,
    {
        match cursor.advance(desc, source, false) {
            Step::Finished(o) => {
                return o;
            },
            Step::Continue => {},
            Step::Abandoned => {},
        }
    }
}

/// How many candidates are tried without a match before the search from
/// position `i` on ends: up to the first match, or to the end of the
/// dictionary.
pub open spec fn tried_from(d: DescriptorModel, dict: Seq<Seq<char>>, i: nat) -> nat
    decreases dict.len() - i,
{
    if i >= dict.len() {
        dict.len()
    } else if matches_at(d, dict, i as int) {
        i
    } else {
        tried_from(d, dict, i + 1)
    }
}

/// How many candidates the search of a document tries without a match: the
/// index of the first match, or the length of the dictionary if there is none.
pub open spec fn tried(d: DescriptorModel, dict: Seq<Seq<char>>) -> nat {
    tried_from(d, dict, 0)
}

/// The search from `i` on does not end before `i`, nor after the end of the
/// dictionary.
pub proof fn lemma_tried_from_bounds(d: DescriptorModel, dict: Seq<Seq<char>>, i: nat)
    requires
        i <= dict.len(),
    ensures
        i <= tried_from(d, dict, i) <= dict.len(),
    decreases dict.len() - i,
{
    if i < dict.len() && !matches_at(d, dict, i as int) {
        lemma_tried_from_bounds(d, dict, i + 1);
    }
}

/// What `tried` counts is the index of the first match where there is one,
/// and the length of the dictionary where there is none.
pub proof fn lemma_tried_is_first_match(d: DescriptorModel, dict: Seq<Seq<char>>)
    ensures
        forall|k: int| is_first_match(d, dict, k) ==> tried(d, dict) == k,
        no_match(d, dict) ==> tried(d, dict) == dict.len(),
{
    assert forall|k: int| is_first_match(d, dict, k) implies tried(d, dict) == k by {
        lemma_tried_reaches(d, dict, k, 0);
    }
    if no_match(d, dict) {
        lemma_tried_reaches(d, dict, dict.len() as int, 0);
    }
}

/// Where no candidate from `i` up to `k` matches and `k` is a match or the
/// end of the dictionary, the search from `i` on ends at `k`.
pub proof fn lemma_tried_reaches(d: DescriptorModel, dict: Seq<Seq<char>>, k: int, i: nat)
    requires
        i <= k <= dict.len(),
        forall|j: int| i <= j < k ==> !matches_at(d, dict, j),
        k == dict.len() || matches_at(d, dict, k),
    ensures
        tried_from(d, dict, i) == k,
    decreases k - i,
{
    if i < k {
        lemma_tried_reaches(d, dict, k, i + 1);
    }
}

/// How many candidates the search of a document validates: those before
/// the first match and the match itself, or the whole dictionary where
/// nothing matches. No candidate after the first match is validated.
pub open spec fn validated(d: DescriptorModel, dict: Seq<Seq<char>>) -> nat {
    if tried(d, dict) < dict.len() {
        tried(d, dict) + 1
    } else {
        dict.len()
    }
}

/// Tries the candidates in dictionary order and stops at the first that
/// unlocks the document; returns the outcome and the number of candidates
/// that were validated.
pub fn crack_counted(desc: &EncryptionDescriptor, source: &CandidateSource) -> (r: (Outcome, usize))
    ensures
        r.0@ == search_outcome(desc@, source@),
        r.1 == validated(desc@, source@),
{
    let mut cursor = Cursor::new();
    loop
        invariant
            cursor.next <= source@.len(),
            search_outcome(desc@, source@) == search_from(desc@, source@, cursor.next as nat),
            tried(desc@, source@) == tried_from(desc@, source@, cursor.next as nat),
        decreases source@.len() - cursor.next,
    {
        let at_end: bool = cursor.next >= source.len();
        match cursor.advance(desc, source, false) {
            Step::Finished(o) => {
                let count: usize = if at_end {
                    cursor.next
                } else {
                    cursor.next + 1
                };
                return (o, count);
            },
            Step::Continue => {},
            Step::Abandoned => {},
        }
    }
}

/// The content of what reading a document's descriptor gave.
pub open spec fn extraction_model(
    extraction: Result<EncryptionDescriptor, ExtractError>,
) -> Result<DescriptorModel, ExtractError> {
    match extraction {
        Ok(desc) => Ok(desc@),
        Err(reason) => Err(reason),
    }
}

/// The outcome that a document has under the dictionary: without a
/// descriptor the reason why there is none, else the outcome of the search.
pub open spec fn document_outcome(
    extraction: Result<DescriptorModel, ExtractError>,
    dict: Seq<Seq<char>>,
) -> OutcomeModel {
    match extraction {
        Ok(d) => search_outcome(d, dict),
        Err(reason) => OutcomeModel::ExtractionFailed { reason },
    }
}

/// The outcome of one document, given what reading its descriptor gave: a
/// document without a descriptor is reported with the reason and no
/// candidate is tried on it.
pub fn process_document(
    extraction: Result<EncryptionDescriptor, ExtractError>,
    source: &CandidateSource,
) -> (out: Outcome)
    ensures
        out@ == document_outcome(extraction_model(extraction), source@),
{
    match extraction {
        Ok(desc) => crack(&desc, source),
        Err(reason) => Outcome::ExtractionFailed { reason },
    }
}

/// If candidate `k` is the first that unlocks the document, the search from
/// any position up to `k` reports it.
pub proof fn lemma_search_reaches_first(
    d: DescriptorModel,
    dict: Seq<Seq<char>>,
    k: int,
    i: nat,
)
    requires
        is_first_match(d, dict, k),
        i <= k,
    ensures
        search_from(d, dict, i) == (OutcomeModel::Found {
            password: dict[k],
            candidate_index: k as nat,
        }),
    decreases k - i,
{
    if i < k {
        lemma_search_reaches_first(d, dict, k, i + 1);
    }
}

/// If the true password stands at position `k` of the dictionary and no
/// earlier candidate unlocks the document, the outcome is `Found` with
/// index `k` and that candidate's text.
pub proof fn lemma_found_reports_first_match(d: DescriptorModel, dict: Seq<Seq<char>>, k: int)
    requires
        is_first_match(d, dict, k),
    ensures
        search_outcome(d, dict) == (OutcomeModel::Found {
            password: dict[k],
            candidate_index: k as nat,
        }),
{
    lemma_search_reaches_first(d, dict, k, 0);
}

/// If no candidate from position `i` on unlocks the document, the search
/// from `i` ends in `Exhausted`.
pub proof fn lemma_search_exhausts(d: DescriptorModel, dict: Seq<Seq<char>>, i: nat)
    requires
        forall|j: int| i <= j < dict.len() ==> !matches_at(d, dict, j),
    ensures
        search_from(d, dict, i) == OutcomeModel::Exhausted,
    decreases dict.len() - i,
{
    if i < dict.len() {
        lemma_search_exhausts(d, dict, i + 1);
    }
}

/// The outcome is `Exhausted` exactly when no candidate unlocks the document;
/// otherwise it is `Found`.
pub proof fn lemma_exhausted_iff_no_match(d: DescriptorModel, dict: Seq<Seq<char>>)
    ensures
        search_outcome(d, dict) == OutcomeModel::Exhausted <==> no_match(d, dict),
        !no_match(d, dict) ==> search_outcome(d, dict) is Found,
{
    if no_match(d, dict) {
        lemma_search_exhausts(d, dict, 0);
    } else {
        lemma_some_first_match(d, dict, dict.len());
        let k = choose|k: int| is_first_match(d, dict, k);
        lemma_found_reports_first_match(d, dict, k);
    }
}

/// If some candidate among the first `n` unlocks the document, there is a
/// first one that does.
pub proof fn lemma_some_first_match(d: DescriptorModel, dict: Seq<Seq<char>>, n: nat)
    requires
        n <= dict.len(),
        exists|j: int| 0 <= j < n && matches_at(d, dict, j),
    ensures
        exists|k: int| is_first_match(d, dict, k),
    decreases n,
{
    let j = choose|j: int| 0 <= j < n && matches_at(d, dict, j);
    if exists|j2: int| 0 <= j2 < j && matches_at(d, dict, j2) {
        lemma_some_first_match(d, dict, j as nat);
    } else {
        assert(is_first_match(d, dict, j));
    }
}

/// Once candidate `k` is the first that unlocks the document, what stands
/// after it in the dictionary does not matter: the outcome is that of the
/// dictionary cut after `k`.
pub proof fn lemma_later_candidates_do_not_matter(
    d: DescriptorModel,
    dict: Seq<Seq<char>>,
    k: int,
)
    requires
        is_first_match(d, dict, k),
    ensures
        search_outcome(d, dict) == search_outcome(d, dict.subrange(0, k + 1)),
{
    let cut = dict.subrange(0, k + 1);
    assert(is_first_match(d, cut, k)) by {
        assert(cut[k] == dict[k]);
        assert forall|j: int| 0 <= j < k implies !matches_at(d, cut, j) by {
            assert(cut[j] == dict[j]);
            assert(!matches_at(d, dict, j));
        }
    }
    lemma_found_reports_first_match(d, dict, k);
    lemma_found_reports_first_match(d, cut, k);
}

/// The outcome of a document depends on the content of its descriptor and
/// on the texts of the dictionary alone: running again gives it again.
pub proof fn lemma_outcome_repeatable(
    d1: EncryptionDescriptor,
    d2: EncryptionDescriptor,
    s1: CandidateSource,
    s2: CandidateSource,
)
    requires
        d1@ == d2@,
        s1@ == s2@,
    ensures
        search_outcome(d1@, s1@) == search_outcome(d2@, s2@),
{
}

} // verus!
