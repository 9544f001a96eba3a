//! Mounts a list of user-specified network locations on behalf of a desktop
//! session, tolerating partial failure and reporting one aggregate outcome.
//!
//! This library holds the verified orchestration core: parsing the manifest
//! into typed mount entries, deciding how an authentication challenge is
//! answered for one attempt, and aggregating the completion of every attempt
//! into a single success/failure verdict. The binary around it performs the
//! file reading and drives the external mount provider, handing this library
//! plain values and taking plain values back.

use vstd::prelude::*;

pub mod aggregate;
pub mod auth;
pub mod errors;
pub mod logger;
pub mod parser;

pub use aggregate::AggregateState;
pub use aggregate::ErrorDescriptor;
pub use aggregate::MountResult;
pub use aggregate::MountStatus;
pub use aggregate::Msg;
pub use aggregate::completion_to_msg;
pub use auth::AuthAttemptState;
pub use auth::AuthReply;
pub use auth::ask_password;
pub use errors::AdsysMountError;
pub use logger::Logger;
pub use parser::MountEntry;
pub use parser::parse_entries;

use aggregate::MsgView;
use aggregate::mounts_verdict;
use parser::entries_of;

verus! {

/// Orchestrates one run from plain values: the manifest text if the file
/// could be read (`None` when it was unreadable), and the completion each
/// dispatched mount attempt produced — exactly one per parsed entry, in
/// arrival order. The binary around this library reads the manifest file,
/// issues one provider call per entry and collects the completions through
/// a channel; every decision is made here. An unreadable manifest is a
/// `ParseError` before anything is dispatched; a manifest with no entries
/// succeeds at once without starting the event loop; otherwise the loop
/// consumes exactly one completion per attempt and the verdict is success
/// unless some attempt failed for a reason other than "already mounted".
pub fn handle_user_mounts(manifest: Option<&str>, outcomes: Vec<Msg>) -> (r: Result<
    (),
    AdsysMountError,
>)
    requires
        manifest is Some ==> outcomes@.len() == entries_of(manifest->0@).len(),
    ensures
        manifest is None ==> r == Err::<(), AdsysMountError>(AdsysMountError::ParseError),
        manifest is Some ==> r == mounts_verdict(outcomes@.map_values(|m: Msg| m@)),
{
    let content = match manifest {
        None => {
            return Err(AdsysMountError::ParseError);
        },
        Some(c) => c,
    };
    let parsed_entries = parse_entries(content);

    let mounts_left = parsed_entries.len();
    if mounts_left < 1 {
        return Ok(());
    }

    let mut state = AggregateState::new(mounts_left);
    let mut rest = outcomes;
    let ghost all = rest@.map_values(|m: Msg| m@);
    let ghost mut done = Seq::<MsgView>::empty();
    proof {
        assert(done + rest@.map_values(|m: Msg| m@) =~= all);
        assert(state@.failures =~= aggregate::failures_of(done));
    }
    while rest.len() > 0
        invariant
            state@.pending == rest@.len(),
            done + rest@.map_values(|m: Msg| m@) == all,
            state@.failures == aggregate::failures_of(done),
        decreases rest@.len(),
    {
        let ghost rest_before = rest@;
        let msg = rest.remove(0);
        proof {
            assert(rest_before.map_values(|m: Msg| m@) =~= seq![msg@] + rest@.map_values(
                |m: Msg| m@,
            ));
            assert((done + rest_before.map_values(|m: Msg| m@)) =~= (done.push(msg@)
                + rest@.map_values(|m: Msg| m@)));
            broadcast use Seq::lemma_filter_push;

            let pred = |m: MsgView| m.status is Err;
            let mk = |m: MsgView| aggregate::MountErrorView {
                path: m.path,
                error: m.status->Err_0,
            };
            if pred(msg@) {
                assert(done.push(msg@).filter(pred) == done.filter(pred).push(msg@));
                assert(aggregate::failures_of(done.push(msg@)) =~= aggregate::failures_of(
                    done,
                ).push(mk(msg@)));
            } else {
                assert(done.push(msg@).filter(pred) == done.filter(pred));
                assert(aggregate::failures_of(done.push(msg@)) =~= aggregate::failures_of(done));
            }
        }
        let ghost msg_view = msg@;
        state.process_msg(msg);
        proof {
            done = done.push(msg_view);
        }
    }
    proof {
        assert(rest@.map_values(|m: Msg| m@) =~= Seq::<MsgView>::empty());
        assert(done =~= all);
        aggregate::lemma_verdict_via_failures(all);
    }
    state.verdict()
}

} // verus!
