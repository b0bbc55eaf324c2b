//! Laws of the course of an order: what it asks for after what, and what it writes.

use vstd::prelude::*;

use crate::dns_laws::{answer_name, lemma_answer_name};
use crate::files::{lemma_written, writes, FilePath, FileStep};
use crate::order::{
    issue_action, issue_run, issue_start, issue_step, names_added, Action, AuthorizationStatus,
    Event, IssueView, OrderStatus, Phase,
};

verus! {

/// What came of what an order asked for, as the contracts speak of it.
pub type OrderEvent = Event<Seq<char>, Seq<Seq<char>>>;

/// What an order asks for, as the contracts speak of it.
pub type OrderAction = Action<Seq<char>, Seq<Seq<char>>, Seq<FileStep<Seq<char>>>>;

/// What an order asks for after a row of events.
pub open spec fn asks(start: IssueView, events: Seq<OrderEvent>) -> OrderAction {
    issue_action(issue_run(start, events))
}

/// The text that finalizing the order returned last.
pub open spec fn key_text(start: IssueView, events: Seq<OrderEvent>) -> Option<Seq<char>>
    decreases events.len(),
{
    if events.len() == 0 {
        None
    } else {
        match (asks(start, events.drop_last()), events.last()) {
            (Action::Finalize, Event::Text(Ok(text))) => Some(text),
            _ => key_text(start, events.drop_last()),
        }
    }
}

/// The text that downloading the certificate returned last.
pub open spec fn chain_text(start: IssueView, events: Seq<OrderEvent>) -> Option<Seq<char>>
    decreases events.len(),
{
    if events.len() == 0 {
        None
    } else {
        match (asks(start, events.drop_last()), events.last()) {
            (Action::PollCertificate, Event::Text(Ok(text))) => Some(text),
            _ => chain_text(start, events.drop_last()),
        }
    }
}

/// The files that were written, in their order.
pub open spec fn files_written(start: IssueView, events: Seq<OrderEvent>) -> Seq<
    FilePath<Seq<char>>,
>
    decreases events.len(),
{
    if events.len() == 0 {
        Seq::empty()
    } else {
        let before = files_written(start, events.drop_last());
        match (asks(start, events.drop_last()), events.last()) {
            (Action::Write(steps), Event::Did(Ok(_))) => before.push(steps[2]->to),
            _ => before,
        }
    }
}

/// The names and values that the update server confirmed, in their order.
pub open spec fn confirmed(start: IssueView, events: Seq<OrderEvent>) -> Seq<
    (Seq<char>, Seq<char>),
>
    decreases events.len(),
{
    if events.len() == 0 {
        Seq::empty()
    } else {
        let before = confirmed(start, events.drop_last());
        match (asks(start, events.drop_last()), events.last()) {
            (Action::ConfirmTxt { name, value }, Event::Did(Ok(_))) => before.push((name, value)),
            _ => before,
        }
    }
}

/// The names and values for which the resolver was watched, in their order.
pub open spec fn watched(start: IssueView, events: Seq<OrderEvent>) -> Seq<(Seq<char>, Seq<char>)>
    decreases events.len(),
{
    if events.len() == 0 {
        Seq::empty()
    } else {
        let before = watched(start, events.drop_last());
        match (asks(start, events.drop_last()), events.last()) {
            (Action::AwaitPublicTxt { name, value, .. }, Event::Seen(_)) => before.push(
                (name, value),
            ),
            _ => before,
        }
    }
}

/// The file with the key.
pub open spec fn key_file(start: IssueView) -> FilePath<Seq<char>> {
    FilePath { dir: start.output_dir, file: "privkey.pem"@ }
}

/// The file with the chain.
pub open spec fn chain_file(start: IssueView) -> FilePath<Seq<char>> {
    FilePath { dir: start.output_dir, file: "fullchain.pem"@ }
}

/// What an order was started with stays, and the resolver is watched for what was
/// confirmed.
spec fn watching(start: IssueView, events: Seq<OrderEvent>) -> bool {
    let s = issue_run(start, events);
    let seen = watched(start, events);
    &&& s.domains == start.domains && s.output_dir == start.output_dir && s.zone == start.zone
        && s.wait_secs == start.wait_secs
    &&& s.pending == confirmed(start, events)
    &&& match s.phase {
        Phase::Placing => seen.len() == 0,
        Phase::Authorizing => seen.len() == 0,
        Phase::Adding { .. } => seen.len() == 0,
        Phase::Confirming { .. } => seen.len() == 0,
        Phase::Sleeping => seen.len() == 0,
        Phase::Watching(i) => i < s.pending.len() && seen == s.pending.take(i as int),
        Phase::Readying => seen == s.pending,
        Phase::SettingReady => seen == s.pending,
        Phase::Polling => seen == s.pending,
        _ => true,
    }
}

proof fn lemma_watching(start: IssueView, events: Seq<OrderEvent>)
    requires
        start == issue_start(start.domains, start.output_dir, start.zone, start.wait_secs),
    ensures
        watching(start, events),
    decreases events.len(),
{
    if events.len() > 0 {
        let front = events.drop_last();
        lemma_watching(start, front);
        let s = issue_run(start, front);
        let seen = watched(start, front);
        assert(seen.len() == 0 ==> seen =~= Seq::empty());
        assert(s.pending.take(0) =~= Seq::empty());
        assert(s.pending.take(s.pending.len() as int) =~= s.pending);
        assert(s.pending.len() == 0 ==> s.pending =~= Seq::empty());
        match s.phase {
            Phase::Watching(i) => {
                assert(s.pending.take(i as int).push(s.pending[i as int]) =~= s.pending.take(
                    i as int + 1,
                ));
            },
            _ => {},
        }
    }
}

/// The key and the chain of an order are the texts that were returned for them.
spec fn texts_kept(start: IssueView, events: Seq<OrderEvent>) -> bool {
    let s = issue_run(start, events);
    let key = key_text(start, events);
    let chain = chain_text(start, events);
    match s.phase {
        Phase::Downloading { key: k } => key == Some(k),
        Phase::Clearing { outcome: Ok((k, c)), .. } => key == Some(k) && chain == Some(c),
        Phase::MakingDir { key: k, chain: c } => key == Some(k) && chain == Some(c),
        Phase::WritingKey { key: k, chain: c } => key == Some(k) && chain == Some(c),
        Phase::WritingChain { chain: c } => chain == Some(c),
        _ => true,
    }
}

proof fn lemma_texts_kept(start: IssueView, events: Seq<OrderEvent>)
    requires
        start == issue_start(start.domains, start.output_dir, start.zone, start.wait_secs),
    ensures
        texts_kept(start, events),
    decreases events.len(),
{
    if events.len() > 0 {
        lemma_texts_kept(start, events.drop_last());
    }
}

/// The files that were written so far.
spec fn files_kept(start: IssueView, events: Seq<OrderEvent>) -> bool {
    let files = files_written(start, events);
    match issue_run(start, events).phase {
        Phase::WritingChain { .. } => files == seq![key_file(start)],
        Phase::Done(Ok(_)) => files == seq![key_file(start), chain_file(start)],
        Phase::Done(Err(_)) => true,
        _ => files.len() == 0,
    }
}

proof fn lemma_files_kept(start: IssueView, events: Seq<OrderEvent>)
    requires
        start == issue_start(start.domains, start.output_dir, start.zone, start.wait_secs),
    ensures
        files_kept(start, events),
    decreases events.len(),
{
    if events.len() > 0 {
        let front = events.drop_last();
        lemma_files_kept(start, front);
        lemma_watching(start, front);
        let files = files_written(start, front);
        assert(files.len() == 0 ==> files =~= Seq::empty());
        assert(Seq::<FilePath<Seq<char>>>::empty().push(key_file(start)) =~= seq![key_file(start)]);
        assert(seq![key_file(start)].push(chain_file(start)) =~= seq![
            key_file(start),
            chain_file(start),
        ]);
        lemma_write_action(issue_run(start, front));
    }
}

/// What an order asks for where it writes a file.
proof fn lemma_write_action(s: IssueView)
    ensures
        issue_action(s) is Write <==> s.phase is WritingKey || s.phase is WritingChain,
        s.phase matches Phase::WritingKey { key, .. } ==> writes(
            issue_action(s)->Write_0,
            s.output_dir,
            "privkey.pem"@,
            key,
            0o600,
        ),
        s.phase matches Phase::WritingChain { chain } ==> writes(
            issue_action(s)->Write_0,
            s.output_dir,
            "fullchain.pem"@,
            chain,
            0o644,
        ),
{
    match s.phase {
        Phase::WritingKey { key, .. } => {
            lemma_written(FilePath { dir: s.output_dir, file: "privkey.pem"@ }, key, 0o600);
        },
        Phase::WritingChain { chain } => {
            lemma_written(FilePath { dir: s.output_dir, file: "fullchain.pem"@ }, chain, 0o644);
        },
        _ => {},
    }
}

/// What is written to the file of the key is the text that finalizing the order returned,
/// readable for its owner alone; and what is written to the file of the chain is the text
/// that downloading the certificate returned. Nothing else is written.
pub proof fn lemma_files_hold(start: IssueView, events: Seq<OrderEvent>)
    requires
        start == issue_start(start.domains, start.output_dir, start.zone, start.wait_secs),
        asks(start, events) is Write,
    ensures
        ({
            let steps = asks(start, events)->Write_0;
            let key = key_text(start, events);
            let chain = chain_text(start, events);
            ||| key is Some && writes(
                steps,
                start.output_dir,
                "privkey.pem"@,
                key->0,
                0o600,
            )
            ||| chain is Some && writes(
                steps,
                start.output_dir,
                "fullchain.pem"@,
                chain->0,
                0o644,
            )
        }),
{
    lemma_watching(start, events);
    lemma_texts_kept(start, events);
    lemma_write_action(issue_run(start, events));
}

/// An order that succeeded has written the key and then the chain, each once, into its
/// output directory.
pub proof fn lemma_success_wrote(start: IssueView, events: Seq<OrderEvent>)
    requires
        start == issue_start(start.domains, start.output_dir, start.zone, start.wait_secs),
        issue_run(start, events).phase matches Phase::Done(Ok(_)),
    ensures
        files_written(start, events) == seq![key_file(start), chain_file(start)],
{
    lemma_files_kept(start, events);
}

/// Before the certificate authority is told that a challenge is ready, the resolver was
/// watched once for each TXT record that the update server confirmed.
pub proof fn lemma_watched_all(start: IssueView, events: Seq<OrderEvent>)
    requires
        start == issue_start(start.domains, start.output_dir, start.zone, start.wait_secs),
        asks(start, events) is SetReady,
    ensures
        watched(start, events) == confirmed(start, events),
{
    lemma_watching(start, events);
}

/// What an order asks for has the values that it was started with: the order is placed
/// for its domains, the wait is its wait, the resolver is watched for the wait and at
/// least a minute, and the directory that is made is its output directory.
pub proof fn lemma_asks_for_its_own(start: IssueView, events: Seq<OrderEvent>)
    requires
        start == issue_start(start.domains, start.output_dir, start.zone, start.wait_secs),
    ensures
        events.len() == 0 ==> asks(start, events) == OrderAction::PlaceOrder(start.domains),
        match asks(start, events) {
            Action::PlaceOrder(names) => names == start.domains,
            Action::Sleep(secs) => secs == start.wait_secs,
            Action::AwaitPublicTxt { name, value, budget_secs } => {
                &&& confirmed(start, events).contains((name, value))
                &&& budget_secs >= 60 && budget_secs >= start.wait_secs
                &&& budget_secs == 60 || budget_secs == start.wait_secs
            },
            Action::MakeDir(dir) => dir == start.output_dir,
            _ => true,
        },
{
    lemma_watching(start, events);
    let s = issue_run(start, events);
    match s.phase {
        Phase::Watching(i) => {
            assert(s.pending[i as int] == (s.pending[i as int].0, s.pending[i as int].1));
            assert(s.pending.contains(s.pending[i as int]));
        },
        _ => {},
    }
}

/// Whether an order has failed: what is left is to clean up and to report.
pub open spec fn failed(s: IssueView) -> bool {
    match s.phase {
        Phase::Clearing { outcome: Err(_), .. } => true,
        Phase::Done(Err(_)) => true,
        _ => false,
    }
}

/// What an order asks for next. A pending challenge is answered with its own value at the
/// name for its identifier, and what was added is what is confirmed; a valid authorization
/// is passed over and any other fails the order. On the second pass each pending challenge
/// is reported ready. An order that is found ready is finalized, then downloaded. Whatever
/// fails on the way fails the order.
pub proof fn lemma_next(start: IssueView, events: Seq<OrderEvent>, event: OrderEvent)
    requires
        start == issue_start(start.domains, start.output_dir, start.zone, start.wait_secs),
    ensures
        ({
            let t = issue_run(start, events.push(event));
            let next = asks(start, events.push(event));
            match (asks(start, events), event) {
                (Action::PlaceOrder(_), Event::Did(Ok(_))) => next is NextAuthorization,
                (Action::PlaceOrder(_), Event::Did(Err(_))) => failed(t),
                (Action::NextAuthorization, Event::Authorization { status, challenge }) => {
                    match (status, challenge) {
                        (AuthorizationStatus::Pending, Some((identifier, value))) => next
                            == OrderAction::AddTxt {
                            name: answer_name(identifier, start.zone),
                            value,
                        },
                        (AuthorizationStatus::Valid, _) => next is NextAuthorization,
                        _ => failed(t),
                    }
                },
                (Action::NextAuthorization, Event::Unfetched(_)) => failed(t),
                (Action::NextAuthorization, Event::Ended) => {
                    ||| next is Sleep && start.wait_secs > 0 && names_added(start, events).len() > 0
                    ||| (next is AwaitPublicTxt || next is NextAuthorizationAgain) && (
                    start.wait_secs == 0 || issue_run(start, events).txt_names.len() == 0)
                },
                (Action::AddTxt { name, value }, Event::Did(Ok(_))) => next == OrderAction::ConfirmTxt {
                    name,
                    value,
                },
                (Action::AddTxt { .. }, Event::Did(Err(_))) => failed(t),
                (Action::ConfirmTxt { .. }, Event::Did(Ok(_))) => next is NextAuthorization,
                (Action::ConfirmTxt { .. }, Event::Did(Err(_))) => failed(t),
                (Action::NextAuthorizationAgain, Event::Authorization { status, challenge }) => {
                    match (status, challenge) {
                        (AuthorizationStatus::Pending, Some(_)) => next is SetReady,
                        (AuthorizationStatus::Pending, None) => failed(t),
                        _ => next is NextAuthorizationAgain,
                    }
                },
                (Action::NextAuthorizationAgain, Event::Unfetched(_)) => failed(t),
                (Action::NextAuthorizationAgain, Event::Ended) => next is PollReady,
                (Action::SetReady, Event::Did(Ok(_))) => next is NextAuthorizationAgain,
                (Action::SetReady, Event::Did(Err(_))) => failed(t),
                (Action::PollReady, Event::Status(Ok(OrderStatus::Ready))) => next is Finalize,
                (Action::PollReady, Event::Status(_)) => failed(t),
                (Action::Finalize, Event::Text(Ok(_))) => next is PollCertificate,
                (Action::Finalize, Event::Text(Err(_))) => failed(t),
                (Action::PollCertificate, Event::Text(Ok(_))) => next is ClearTxt
                    || next is MakeDir,
                (Action::PollCertificate, Event::Text(Err(_))) => failed(t),
                (Action::MakeDir(_), Event::Did(Ok(_))) => next is Write,
                (Action::MakeDir(_), Event::Did(Err(_))) => failed(t),
                (Action::Write(_), Event::Did(Err(_))) => failed(t),
                _ => true,
            }
        }),
{
    lemma_watching(start, events);
    lemma_watching(start, events.push(event));
    lemma_added(start, events);
    assert(events.push(event).drop_last() =~= events);
    match event {
        Event::Authorization { challenge: Some((identifier, _)), .. } => {
            lemma_answer_name(identifier, start.zone);
        },
        _ => {},
    }
}

proof fn lemma_added(start: IssueView, events: Seq<OrderEvent>)
    requires
        start == issue_start(start.domains, start.output_dir, start.zone, start.wait_secs),
    ensures
        issue_run(start, events).txt_names == names_added(start, events),
    decreases events.len(),
{
    if events.len() > 0 {
        lemma_added(start, events.drop_last());
    }
}

/// A failure is what the order ends with: the clean-up changes nothing about it.
pub proof fn lemma_failure_kept(s: IssueView, event: OrderEvent)
    requires
        failed(s),
    ensures
        failed(issue_step(s, event).0),
        s.phase matches Phase::Done(r) ==> issue_step(s, event).0 == s,
        s.phase matches Phase::Clearing { outcome, .. } ==> match issue_step(s, event).0.phase {
            Phase::Clearing { outcome: kept, .. } => kept == outcome,
            Phase::Done(Err(e)) => outcome == Err::<(Seq<char>, Seq<char>), Seq<Seq<char>>>(e),
            _ => false,
        },
{
}

} // verus!
