//! Proof that a TXT record was written: the update server serves it, a resolver
//! sees it, and a probe record can be written, read and removed.
//!
//! Each of the three is a state that says what to do next, and a step to the next
//! state once that is done.

use vstd::prelude::*;
use vstd::string::*;

use crate::dns::{read_view, ChallengeDns};
use crate::failure::Failure;
use crate::lines::done_view;
use crate::text::{cat2, cat4, decimal, decimal_text, ends, same, texts};

verus! {

// ---- confirmation by the update server -----------------------------------

/// How far a confirmation has come. `F` stands for a failure.
#[derive(Debug)]
pub enum Confirming<F> {
    /// The update server is to be asked; so many questions are left, this one counted.
    Ask(u8),
    /// A second is to pass; so many questions are left.
    Pause(u8),
    /// The update server serves the value.
    Served,
    /// It could not be asked, or does not serve the value.
    Failed(F),
}

impl View for Confirming<Failure> {
    type V = Confirming<Seq<Seq<char>>>;

    open spec fn view(&self) -> Confirming<Seq<Seq<char>>> {
        match *self {
            Confirming::Ask(left) => Confirming::Ask(left),
            Confirming::Pause(left) => Confirming::Pause(left),
            Confirming::Served => Confirming::Served,
            Confirming::Failed(f) => Confirming::Failed(f@),
        }
    }
}

/// The confirmation that the update server serves a value at a name.
#[derive(Debug)]
pub struct Confirm {
    pub name: String,
    pub value: String,
    pub zone: String,
    pub state: Confirming<Failure>,
}

/// What a reader is told where the update server does not serve what it accepted.
pub open spec fn not_served(name: Seq<char>, zone: Seq<char>) -> Seq<Seq<char>> {
    seq![
        "TXT "@ + name
            + " was accepted but the update server does not serve it — check that this server is authoritative for "@
            + zone,
    ]
}

/// A confirmation once the question that it asked has an answer.
pub open spec fn confirm_answered(
    state: Confirming<Seq<Seq<char>>>,
    value: Seq<char>,
    answer: Result<Seq<Seq<char>>, Seq<Seq<char>>>,
) -> Confirming<Seq<Seq<char>>> {
    match state {
        Confirming::Ask(left) => match answer {
            Err(e) => Confirming::Failed(e),
            Ok(values) => if values.contains(value) {
                Confirming::Served
            } else if left == 0 {
                Confirming::Pause(0)
            } else {
                Confirming::Pause((left - 1) as u8)
            },
        },
        _ => state,
    }
}

/// A confirmation once its pause is over.
pub open spec fn confirm_rested(
    state: Confirming<Seq<Seq<char>>>,
    name: Seq<char>,
    zone: Seq<char>,
) -> Confirming<Seq<Seq<char>>> {
    match state {
        Confirming::Pause(left) => if left == 0 {
            Confirming::Failed(not_served(name, zone))
        } else {
            Confirming::Ask(left)
        },
        _ => state,
    }
}

/// Whether `value` is among `values`.
pub fn holds(values: &Vec<String>, value: &str) -> (r: bool)
    ensures
        r == texts(values@).contains(value@),
{
    let mut i: usize = 0;
    while i < values.len()
        invariant
            i <= values@.len(),
            forall|j: int| 0 <= j < i ==> texts(values@)[j] != value@,
        decreases values@.len() - i,
    {
        if same(values[i].as_str(), value) {
            assert(texts(values@)[i as int] == value@);
            return true;
        }
        i = i + 1;
    }
    assert(forall|j: int| 0 <= j < texts(values@).len() ==> texts(values@)[j] != value@);
    false
}

impl Confirm {
    /// The same confirmation once the question that it asked has an answer.
    pub fn answered(self, answer: Result<Vec<String>, Failure>) -> (r: Confirm)
        ensures
            r.name == self.name && r.value == self.value && r.zone == self.zone,
            r.state@ == confirm_answered(self.state@, self.value@, read_view(answer)),
    {
        let state = match self.state {
            Confirming::Ask(left) => match answer {
                Err(f) => Confirming::Failed(f),
                Ok(values) => if holds(&values, self.value.as_str()) {
                    Confirming::Served
                } else if left == 0 {
                    Confirming::Pause(0)
                } else {
                    Confirming::Pause(left - 1)
                },
            },
            s => s,
        };
        Confirm { name: self.name, value: self.value, zone: self.zone, state }
    }

    /// The same confirmation once its pause is over.
    pub fn rested(self) -> (r: Confirm)
        ensures
            r.name == self.name && r.value == self.value && r.zone == self.zone,
            r.state@ == confirm_rested(self.state@, self.name@, self.zone@),
    {
        let state = match self.state {
            Confirming::Pause(left) => if left == 0 {
                Confirming::Failed(
                    Failure::new(
                        cat4(
                            "TXT ",
                            self.name.as_str(),
                            " was accepted but the update server does not serve it — check that this server is authoritative for ",
                            self.zone.as_str(),
                        ),
                    ),
                )
            } else {
                Confirming::Ask(left)
            },
            s => s,
        };
        Confirm { name: self.name, value: self.value, zone: self.zone, state }
    }
}

/// Where a confirmation stands after a row of answers, with a pause after each.
pub open spec fn confirm_run(
    state: Confirming<Seq<Seq<char>>>,
    name: Seq<char>,
    value: Seq<char>,
    zone: Seq<char>,
    answers: Seq<Result<Seq<Seq<char>>, Seq<Seq<char>>>>,
) -> Confirming<Seq<Seq<char>>>
    decreases answers.len(),
{
    if answers.len() == 0 {
        state
    } else {
        confirm_run(
            confirm_rested(confirm_answered(state, value, answers[0]), name, zone),
            name,
            value,
            zone,
            answers.drop_first(),
        )
    }
}

/// Whether an answer ends a confirmation: a failure, or the value.
pub open spec fn decides(answer: Result<Seq<Seq<char>>, Seq<Seq<char>>>, value: Seq<char>) -> bool {
    match answer {
        Err(_) => true,
        Ok(values) => values.contains(value),
    }
}

/// What ten answers come to: the first that is a failure or holds the value decides,
/// and where none does the value is not served.
pub open spec fn confirm_outcome(
    name: Seq<char>,
    value: Seq<char>,
    zone: Seq<char>,
    answers: Seq<Result<Seq<Seq<char>>, Seq<Seq<char>>>>,
) -> Confirming<Seq<Seq<char>>> {
    if exists|i: int|
        0 <= i < 10 && #[trigger] decides(answers[i], value) && forall|j: int|
            0 <= j < i ==> !decides(#[trigger] answers[j], value) {
        let i = choose|i: int|
            0 <= i < 10 && #[trigger] decides(answers[i], value) && forall|j: int|
                0 <= j < i ==> !decides(#[trigger] answers[j], value);
        match answers[i] {
            Err(e) => Confirming::Failed(e),
            Ok(_) => Confirming::Served,
        }
    } else {
        Confirming::Failed(not_served(name, zone))
    }
}

proof fn lemma_confirm_settled(
    state: Confirming<Seq<Seq<char>>>,
    name: Seq<char>,
    value: Seq<char>,
    zone: Seq<char>,
    answers: Seq<Result<Seq<Seq<char>>, Seq<Seq<char>>>>,
)
    requires
        state is Served || state is Failed,
    ensures
        confirm_run(state, name, value, zone, answers) == state,
    decreases answers.len(),
{
    if answers.len() > 0 {
        lemma_confirm_settled(state, name, value, zone, answers.drop_first());
    }
}

proof fn lemma_confirm_from(
    left: u8,
    name: Seq<char>,
    value: Seq<char>,
    zone: Seq<char>,
    answers: Seq<Result<Seq<Seq<char>>, Seq<Seq<char>>>>,
)
    requires
        1 <= left <= answers.len(),
    ensures
        ({
            let end = confirm_run(Confirming::Ask(left), name, value, zone, answers);
            ||| (forall|j: int| 0 <= j < left ==> !decides(#[trigger] answers[j], value)) && end
                == Confirming::Failed(not_served(name, zone))
            ||| exists|i: int|
                0 <= i < left && #[trigger] decides(answers[i], value) && (forall|j: int|
                    0 <= j < i ==> !decides(#[trigger] answers[j], value)) && end == (
                match answers[i] {
                    Err(e) => Confirming::Failed(e),
                    Ok(_) => Confirming::Served,
                })
        }),
    decreases answers.len(),
{
    let start = Confirming::Ask(left);
    let next = confirm_rested(confirm_answered(start, value, answers[0]), name, zone);
    let rest = answers.drop_first();
    if decides(answers[0], value) {
        lemma_confirm_settled(next, name, value, zone, rest);
    } else if left == 1 {
        lemma_confirm_settled(next, name, value, zone, rest);
    } else {
        lemma_confirm_from((left - 1) as u8, name, value, zone, rest);
        let end = confirm_run(Confirming::Ask((left - 1) as u8), name, value, zone, rest);
        if exists|i: int|
            0 <= i < left - 1 && #[trigger] decides(rest[i], value) && (forall|j: int|
                0 <= j < i ==> !decides(#[trigger] rest[j], value)) {
            let i = choose|i: int|
                0 <= i < left - 1 && #[trigger] decides(rest[i], value) && (forall|j: int|
                    0 <= j < i ==> !decides(#[trigger] rest[j], value));
            assert(decides(answers[i + 1], value));
            assert forall|j: int| 0 <= j < i + 1 implies !decides(#[trigger] answers[j], value) by {
                if j > 0 {
                    assert(answers[j] == rest[j - 1]);
                }
            }
        } else {
            assert forall|j: int| 0 <= j < left implies !decides(#[trigger] answers[j], value) by {
                if j > 0 {
                    assert(answers[j] == rest[j - 1]);
                }
            }
        }
    }
}

/// A confirmation asks at most ten times, and its outcome is that of the first ten
/// answers: the first failure or the first answer with the value decides.
pub proof fn lemma_confirm_outcome(
    name: Seq<char>,
    value: Seq<char>,
    zone: Seq<char>,
    answers: Seq<Result<Seq<Seq<char>>, Seq<Seq<char>>>>,
)
    requires
        answers.len() >= 10,
    ensures
        confirm_run(Confirming::Ask(10), name, value, zone, answers) == confirm_outcome(
            name,
            value,
            zone,
            answers,
        ),
{
    lemma_confirm_from(10, name, value, zone, answers);
}

// ---- sight by the resolver -----------------------------------------------

/// How far a watch has come.
#[derive(Clone, Copy, PartialEq, Eq, Structural, Debug)]
pub enum Watching {
    /// The resolver is to be asked.
    Ask,
    /// Five seconds are to pass.
    Pause,
    /// Whether the value was seen.
    Done(bool),
}

/// The watch for a value at a name through the resolver.
#[derive(Debug)]
pub struct Watch {
    pub name: String,
    pub value: String,
    /// The seconds after which the watch ends.
    pub budget_secs: u64,
    pub state: Watching,
}

/// A watch once the question that it asked has an answer, so many seconds after its
/// beginning. A question that fails counts as one that does not show the value.
pub open spec fn watch_answered(
    state: Watching,
    value: Seq<char>,
    budget_secs: u64,
    answer: Result<Seq<Seq<char>>, Seq<Seq<char>>>,
    elapsed_secs: u64,
) -> Watching {
    match state {
        Watching::Ask => if answer is Ok && answer->Ok_0.contains(value) {
            Watching::Done(true)
        } else if elapsed_secs >= budget_secs {
            Watching::Done(false)
        } else {
            Watching::Pause
        },
        _ => state,
    }
}

impl Watch {
    /// The same watch once the question that it asked has an answer, so many seconds
    /// after its beginning.
    pub fn answered(self, answer: Result<Vec<String>, Failure>, elapsed_secs: u64) -> (r: Watch)
        ensures
            r.name == self.name && r.value == self.value && r.budget_secs == self.budget_secs,
            r.state == watch_answered(
                self.state,
                self.value@,
                self.budget_secs,
                read_view(answer),
                elapsed_secs,
            ),
    {
        let state = match self.state {
            Watching::Ask => {
                let seen = match answer {
                    Ok(values) => holds(&values, self.value.as_str()),
                    Err(_) => false,
                };
                if seen {
                    Watching::Done(true)
                } else if elapsed_secs >= self.budget_secs {
                    Watching::Done(false)
                } else {
                    Watching::Pause
                }
            },
            s => s,
        };
        Watch { name: self.name, value: self.value, budget_secs: self.budget_secs, state }
    }

    /// The same watch once its pause is over.
    pub fn rested(self) -> (r: Watch)
        ensures
            r.name == self.name && r.value == self.value && r.budget_secs == self.budget_secs,
            r.state == (if self.state is Pause {
                Watching::Ask
            } else {
                self.state
            }),
    {
        let state = match self.state {
            Watching::Pause => Watching::Ask,
            s => s,
        };
        Watch { name: self.name, value: self.value, budget_secs: self.budget_secs, state }
    }
}

// ---- the probe -----------------------------------------------------------

/// How far a probe has come. `F` stands for a failure.
#[derive(Debug)]
pub enum Probing<F> {
    /// The probe record is to be added.
    Add,
    /// The update server is to confirm it.
    Confirm,
    /// The probe record is to be removed; the confirmation had this result.
    Clear(Result<(), F>),
    /// The probe is over.
    Done(Result<(), F>),
}

impl View for Probing<Failure> {
    type V = Probing<Seq<Seq<char>>>;

    open spec fn view(&self) -> Probing<Seq<Seq<char>>> {
        match *self {
            Probing::Add => Probing::Add,
            Probing::Confirm => Probing::Confirm,
            Probing::Clear(r) => Probing::Clear(done_view(r)),
            Probing::Done(r) => Probing::Done(done_view(r)),
        }
    }
}

/// A probe: a record that is written, confirmed and removed, which proves the key,
/// the server and the zone together.
#[derive(Debug)]
pub struct Probe {
    pub name: String,
    pub value: String,
    pub state: Probing<Failure>,
}

/// A probe once what it asked for was done, with this result.
pub open spec fn probe_step(
    state: Probing<Seq<Seq<char>>>,
    result: Result<(), Seq<Seq<char>>>,
) -> Probing<Seq<Seq<char>>> {
    match state {
        Probing::Add => match result {
            Ok(_) => Probing::Confirm,
            Err(e) => Probing::Done(Err(e)),
        },
        Probing::Confirm => Probing::Clear(result),
        Probing::Clear(confirmed) => match result {
            Ok(_) => Probing::Done(confirmed),
            Err(e) => Probing::Done(Err(e)),
        },
        Probing::Done(_) => state,
    }
}

impl Probe {
    /// The same probe once what it asked for was done, with this result.
    pub fn step(self, result: Result<(), Failure>) -> (r: Probe)
        ensures
            r.name == self.name && r.value == self.value,
            r.state@ == probe_step(self.state@, done_view(result)),
    {
        let state = match self.state {
            Probing::Add => match result {
                Ok(_) => Probing::Confirm,
                Err(f) => Probing::Done(Err(f)),
            },
            Probing::Confirm => Probing::Clear(result),
            Probing::Clear(confirmed) => match result {
                Ok(_) => Probing::Done(confirmed),
                Err(f) => Probing::Done(Err(f)),
            },
            s => s,
        };
        Probe { name: self.name, value: self.value, state }
    }
}

/// A probe record that was added is removed whatever the confirmation says, and the
/// probe succeeds exactly where all three steps do.
pub proof fn lemma_probe(
    added: Result<(), Seq<Seq<char>>>,
    confirmed: Result<(), Seq<Seq<char>>>,
    cleared: Result<(), Seq<Seq<char>>>,
)
    ensures
        ({
            let one = probe_step(Probing::Add, added);
            let two = probe_step(one, confirmed);
            let three = probe_step(two, cleared);
            &&& added is Err ==> one == Probing::<Seq<Seq<char>>>::Done(added)
            &&& added is Ok ==> one is Confirm && two is Clear
            &&& three is Done
            &&& three->Done_0 is Ok <==> added is Ok && confirmed is Ok && cleared is Ok
        }),
{
}

/// The name of the probe record in a zone.
pub open spec fn probe_name(zone: Seq<char>) -> Seq<char> {
    "_dnsvcert-probe."@ + zone
}

/// The value of the probe record of a process.
pub open spec fn probe_value(process: u32) -> Seq<char> {
    "dnsvcert-probe-"@ + decimal(process as nat)
}

/// The probe record lies in the challenge zone.
pub proof fn lemma_probe_in_zone(zone: Seq<char>)
    ensures
        ends(probe_name(zone), "."@ + zone),
{
    reveal_strlit("_dnsvcert-probe.");
    reveal_strlit(".");
    let name = probe_name(zone);
    let tail = "."@ + zone;
    assert(name.subrange(name.len() - tail.len(), name.len() as int) =~= tail);
}

/// A watch says that the value was not seen only once its time is over, and that it was
/// only where an answer held it.
pub proof fn lemma_watch(
    value: Seq<char>,
    budget_secs: u64,
    answer: Result<Seq<Seq<char>>, Seq<Seq<char>>>,
    elapsed_secs: u64,
)
    ensures
        ({
            let next = watch_answered(Watching::Ask, value, budget_secs, answer, elapsed_secs);
            &&& next == Watching::Done(true) <==> answer is Ok && answer->Ok_0.contains(value)
            &&& next == Watching::Done(false) ==> elapsed_secs >= budget_secs
            &&& elapsed_secs >= budget_secs ==> next is Done
        }),
{
}

impl ChallengeDns {
    /// Starts to confirm that the update server itself serves `value`: proof that the
    /// write landed. BIND applies updates synchronously; the retries cover slow paths
    /// only.
    pub fn confirm_txt(&self, name: &str, value: &str) -> (r: Confirm)
        ensures
            r.name@ == name@ && r.value@ == value@ && r.zone@ == self.zone@,
            r.state == Confirming::<Failure>::Ask(10),
    {
        Confirm {
            name: name.to_owned(),
            value: value.to_owned(),
            zone: self.zone.clone(),
            state: Confirming::Ask(10),
        }
    }

    /// Starts to watch the configured resolver until it sees `value`. Advisory: Let's
    /// Encrypt resolves from its own servers, so a resolver that hasn't caught up does
    /// not mean validation will fail. Without a separate resolver there is nothing to
    /// watch.
    pub fn await_public_txt(&self, name: &str, value: &str, budget_secs: u64) -> (r: Watch)
        ensures
            r.name@ == name@ && r.value@ == value@,
            r.budget_secs == (if budget_secs >= 30 {
                budget_secs
            } else {
                30
            }),
            r.state == (if self.verify_is_resolver {
                Watching::Ask
            } else {
                Watching::Done(true)
            }),
    {
        Watch {
            name: name.to_owned(),
            value: value.to_owned(),
            budget_secs: if budget_secs >= 30 {
                budget_secs
            } else {
                30
            },
            state: if self.verify_is_resolver {
                Watching::Ask
            } else {
                Watching::Done(true)
            },
        }
    }

    /// Starts to write a probe TXT record, confirm it, and clean it up: proves the
    /// TSIG key, server and zone combination end to end.
    pub fn probe(&self, process: u32) -> (r: Probe)
        ensures
            r.name@ == probe_name(self.zone@) && r.value@ == probe_value(process),
            r.state == Probing::<Failure>::Add,
    {
        Probe {
            name: cat2("_dnsvcert-probe.", self.zone.as_str()),
            value: cat2("dnsvcert-probe-", decimal_text(process as u64).as_str()),
            state: Probing::Add,
        }
    }
}

} // verus!
