use vstd::prelude::*;
use vstd::string::StringExecFns;

use crate::archive::drain_relay;
use crate::archive::entry_of;
use crate::archive::ArchiveEntry;
use crate::chapter::ChapterView;
use crate::errors::ArchiveError;
use crate::errors::CrawlError;
use crate::errors::RunError;
use crate::relay::fresh_relay_view;
use crate::relay::spec_send_all;
use crate::relay::Relay;
use crate::target::derive_run_target;
use crate::target::run_target_of;
use crate::walker::chain_sent;
use crate::walker::is_chain;
use crate::walker::pages_view;
use crate::walker::walk_chain;

verus! {

/// The fixed capacity of the relay one run is wired with.
pub const RELAY_CAPACITY: usize = 10000;

/// What one run needs before any fetch happens: the identifying slug of the
/// work and the output file it names.
#[derive(Debug)]
pub struct RunPlan {
    pub target: String,
    pub output_file: String,
}

/// Sets one run up from its initial chapter URL: derives the run target and
/// the output file name. It fails with `InvalidRunTarget`, before any fetch,
/// exactly when the URL does not contain the target pattern.
pub fn plan_run(initial_url: &str) -> (r: Result<RunPlan, RunError>)
    ensures
        match r {
            Ok(plan) => run_target_of(initial_url@) == Some(plan.target@) && plan.output_file@
                == plan.target@ + ".tar.br"@,
            Err(e) => e == RunError::InvalidRunTarget && run_target_of(initial_url@) is None,
        },
{
    match derive_run_target(initial_url) {
        Ok(target) => {
            let output_file = target.clone().concat(".tar.br");
            Ok(RunPlan { target, output_file })
        },
        Err(e) => Err(e),
    }
}

/// Joins the two sides of one finished run: a walker failure is propagated
/// first, then a writer failure, and the run succeeds only when both sides
/// did.
pub fn run_outcome(walk: Result<usize, CrawlError>, drain: Result<(), ArchiveError>) -> (r:
    Result<usize, RunError>)
    ensures
        match walk {
            Err(e) => r == Err::<usize, RunError>(RunError::Crawl(e)),
            Ok(pages) => match drain {
                Err(e) => r == Err::<usize, RunError>(RunError::Archive(e)),
                Ok(()) => r == Ok::<usize, RunError>(pages),
            },
        },
{
    match walk {
        Err(e) => Err(RunError::Crawl(e)),
        Ok(pages) => match drain {
            Err(e) => Err(RunError::Archive(e)),
            Ok(()) => Ok(pages),
        },
    }
}

/// One whole run over a simulated page source, wired as the coordinator
/// wires it: derive the run target (failing before any fetch when the URL
/// does not match), create a fresh relay, walk the chain, close the producer
/// side, and drain every surviving chapter into archive entries. Returns the
/// run's outcome together with whatever was archived before a failure, since
/// a failing run still leaves its partial archive behind.
pub fn run_simulated(pages: &Vec<(String, String)>, initial_url: &String) -> (r: (
    Result<usize, RunError>,
    Vec<ArchiveEntry>,
))
    ensures
        run_target_of(initial_url@) is None ==> r.0 == Err::<usize, RunError>(
            RunError::InvalidRunTarget,
        ) && r.1@.len() == 0,
        run_target_of(initial_url@) is Some ==> {
            &&& ((exists|n: nat|
                n <= pages@.len() && is_chain(pages_view(pages@), initial_url@, n)) <==> r.0
                is Ok)
            &&& (forall|n: nat|
                n <= pages@.len() && #[trigger] is_chain(pages_view(pages@), initial_url@, n)
                    ==> r.0 == Ok::<usize, RunError>(n as usize) && r.1@.map_values(
                    |e: ArchiveEntry| e@,
                ) == spec_send_all(
                    fresh_relay_view(RELAY_CAPACITY as nat),
                    chain_sent(pages_view(pages@), initial_url@, n),
                ).pending.map_values(|c: ChapterView| entry_of(c)))
            &&& (exists|m: nat|
                r.1@.map_values(|e: ArchiveEntry| e@) == spec_send_all(
                    fresh_relay_view(RELAY_CAPACITY as nat),
                    #[trigger] chain_sent(pages_view(pages@), initial_url@, m),
                ).pending.map_values(|c: ChapterView| entry_of(c)))
        },
{
    match plan_run(initial_url.as_str()) {
        Err(e) => (Err(e), Vec::new()),
        Ok(_plan) => {
            let mut relay = Relay::new(RELAY_CAPACITY);
            proof {
                assert(relay@ =~= fresh_relay_view(RELAY_CAPACITY as nat));
            }
            let walk_result = walk_chain(pages, initial_url, &mut relay);
            relay.close_sender();
            let entries = drain_relay(&mut relay);
            match run_outcome(walk_result, Ok(())) {
                Ok(fetched) => (Ok(fetched), entries),
                Err(e) => (Err(e), entries),
            }
        },
    }
}

} // verus!
