//! The instance supervisor and the load gate: the records of the live
//! workers, their admission under a hard cap, their removal, and the load
//! figure that decides whether the local pool may serve a request.

use crate::config::LlamaServerConfig;
use crate::dispatch::{
    invalid_method_cause, upstream_url, DispatchError, DispatchErrorView, UpstreamCall,
    UpstreamCallView,
};
use crate::launch::{
    is_given, launch_plan, locate_worker, plan_launch, resolved_config_path, worker_dir,
    LaunchError, LaunchPlan, LaunchPlanView,
};
use crate::load::{load_at_least, LoadReading, LoadThreshold};
use crate::pool::{
    apply, dashes, first_running, fresh_identifier, has_id, is_first_running, is_first_with_id,
    law_fresh_identifier_is_new, lemma_first_running_absent, lemma_first_running_found,
    lemma_longest_id_bounds, lemma_lookup_push, lemma_position_absent, lemma_position_found,
    lemma_position_range, lemma_remove_keeps_inv, longest_id, lookup, pool_inv, position, remove,
    running_count, with_status, InstanceView, PoolOp, PoolView, ServiceStatus,
};
use crate::text::{concat, concat3, opt_text};
use crate::trusted::{
    fresh_id, is_method_token, method_accepted, path_file_name_of, toml_lookup_string,
    toml_string_at,
};
use vstd::prelude::*;
use vstd::string::*;

verus! {

/// The record of one worker.
#[derive(Debug)]
pub struct ServiceInstance {
    /// Assigned at launch and never changed.
    pub id: String,
    /// The declaration the worker was started from.
    pub config: LlamaServerConfig,
    /// `host:port` of the worker's listener, as its configuration names it.
    pub server_addr: String,
    pub status: ServiceStatus,
}

impl View for ServiceInstance {
    type V = InstanceView;

    open spec fn view(&self) -> InstanceView {
        InstanceView {
            id: self.id@,
            config: self.config@,
            server_addr: self.server_addr@,
            status: self.status,
        }
    }
}

impl Clone for ServiceInstance {
    fn clone(&self) -> (copy: Self)
        ensures
            copy@ == self@,
    {
        ServiceInstance {
            id: self.id.clone(),
            config: self.config.clone(),
            server_addr: self.server_addr.clone(),
            status: self.status,
        }
    }
}

/// The records in `v`, as mathematical values.
pub open spec fn pool_view(v: Seq<ServiceInstance>) -> PoolView {
    v.map_values(|i: ServiceInstance| i@)
}

/// What a successful launch hands back: the record as admitted, and the plan
/// by which its process is to be spawned.
#[derive(Debug)]
pub struct Launch {
    pub instance: ServiceInstance,
    pub plan: LaunchPlan,
}

/// A `Launch` as mathematical values.
pub struct LaunchView {
    pub instance: InstanceView,
    pub plan: LaunchPlanView,
}

impl View for Launch {
    type V = LaunchView;

    open spec fn view(&self) -> LaunchView {
        LaunchView { instance: self.instance@, plan: self.plan@ }
    }
}

/// A launch that has been checked and planned, and not yet admitted.
#[derive(Debug)]
pub struct PendingLaunch {
    /// The identifier that was drawn for the instance.
    pub id: String,
    pub config: LlamaServerConfig,
    /// `host:port` of the worker's listener, as its configuration names it.
    pub server_addr: String,
    /// How its process is to be spawned.
    pub plan: LaunchPlan,
}

/// What is left to do once a record has been removed: its process is to be
/// signalled, and its scratch file deleted.
#[derive(Debug)]
pub struct StopOutcome {
    /// The record that was removed, now `Stopped`.
    pub instance: ServiceInstance,
    /// The directory that holds the scratch file.
    pub scratch_dir: String,
    /// The name of the scratch file in that directory.
    pub scratch_name: String,
}

/// The worker address that a worker configuration names, if it was read at
/// all and names one.
pub open spec fn worker_addr(worker_toml: Option<Seq<char>>) -> Option<Seq<char>> {
    match worker_toml {
        Some(text) => toml_string_at(text, "server"@, "socket_addr"@),
        None => None,
    }
}

/// Why a launch is refused before any process is spawned, if it is: the cap
/// comes first, then the declaration, then the worker's configuration.
pub open spec fn launch_refusal(
    pool: PoolView,
    capacity: nat,
    config_path: Option<Seq<char>>,
    worker_toml: Option<Seq<char>>,
) -> Option<LaunchError> {
    if pool.len() >= capacity {
        Some(LaunchError::CapacityReached)
    } else if !is_given(config_path) {
        Some(LaunchError::MissingConfigPath)
    } else if worker_addr(worker_toml).is_none() {
        Some(LaunchError::ConfigUnreadable)
    } else {
        None
    }
}

/// The record that a launch admits.
pub open spec fn admitted_instance(
    id: Seq<char>,
    config: crate::config::LlamaServerConfigView,
    server_addr: Seq<char>,
) -> InstanceView {
    InstanceView { id, config, server_addr, status: ServiceStatus::Running }
}

/// The name of the scratch file of the instance `id`.
pub open spec fn scratch_name(id: Seq<char>) -> Seq<char> {
    id + ".toml"@
}

/// The scheduler: the live pool and its limits.
pub struct Scheduler {
    instances: Vec<ServiceInstance>,
    config_dir: String,
    max_instances: usize,
}

impl View for Scheduler {
    type V = PoolView;

    closed spec fn view(&self) -> PoolView {
        pool_view(self.instances@)
    }
}

impl Scheduler {
    /// The most instances the pool may hold.
    pub closed spec fn capacity(&self) -> nat {
        self.max_instances as nat
    }

    /// The scratch directory.
    pub closed spec fn config_dir(&self) -> Seq<char> {
        self.config_dir@
    }

    /// The invariant of the pool: it is within its capacity, no identifier
    /// occurs twice, and every record is `Running`.
    pub open spec fn wf(&self) -> bool {
        pool_inv(self@, self.capacity())
    }

    /// An empty pool that may hold `max_instances` workers.
    pub fn new(config_dir: String, max_instances: usize) -> (s: Scheduler)
        ensures
            s.wf(),
            s@ == Seq::<InstanceView>::empty(),
            s.capacity() == max_instances,
            s.config_dir() == config_dir@,
    {
        let s = Scheduler { instances: Vec::new(), config_dir, max_instances };
        proof {
            assert(s@ =~= Seq::<InstanceView>::empty());
        }
        s
    }

    /// The most instances the pool may hold.
    pub fn max_instances(&self) -> (n: usize)
        ensures
            n == self.capacity(),
    {
        self.max_instances
    }

    /// How many records the pool holds.
    pub fn live_count(&self) -> (n: usize)
        ensures
            n == self@.len(),
    {
        self.instances.len()
    }

    /// The place of the first record with this identifier, or the number of
    /// records where there is none.
    fn find(&self, id: &str) -> (at: usize)
        ensures
            at == position(self@, id@),
            at <= self@.len(),
            at < self@.len() <==> has_id(self@, id@),
            at < self@.len() ==> self.instances@[at as int]@.id == id@,
    {
        let wanted = id.to_owned();
        let mut i: usize = 0;
        while i < self.instances.len()
            invariant
                i <= self.instances.len(),
                wanted@ == id@,
                forall|k: int| 0 <= k < i ==> (#[trigger] self@[k]).id != id@,
            decreases self.instances.len() - i,
        {
            if self.instances[i].id == wanted {
                proof {
                    assert(self@[i as int].id == id@);
                    assert(is_first_with_id(self@, id@, i as int));
                    lemma_position_found(self@, id@, i as int);
                }
                return i;
            }
            i = i + 1;
        }
        proof {
            lemma_position_absent(self@, id@);
        }
        i
    }

    /// A frozen copy of the record with this identifier.
    pub fn get_instance(&self, id: &str) -> (found: Option<ServiceInstance>)
        ensures
            found.is_some() == has_id(self@, id@),
            found matches Some(i) ==> Some(i@) == lookup(self@, id@),
    {
        let at = self.find(id);
        if at < self.instances.len() {
            Some(self.instances[at].clone())
        } else {
            None
        }
    }

    /// Frozen copies of all records, in the order of their admission.
    pub fn list_instances(&self) -> (all: Vec<ServiceInstance>)
        ensures
            pool_view(all@) == self@,
    {
        let mut all: Vec<ServiceInstance> = Vec::new();
        let mut i: usize = 0;
        while i < self.instances.len()
            invariant
                i <= self.instances.len(),
                all.len() == i,
                forall|k: int| 0 <= k < i ==> (#[trigger] all[k])@ == self.instances[k]@,
            decreases self.instances.len() - i,
        {
            all.push(self.instances[i].clone());
            i = i + 1;
        }
        proof {
            assert(pool_view(all@) =~= self@);
        }
        all
    }

    /// The load of the pool: the running records, out of its capacity.
    pub fn check_load(&self) -> (reading: LoadReading)
        ensures
            reading.running == running_count(self@),
            reading.capacity == self.capacity(),
    {
        let mut running: usize = 0;
        let mut i: usize = 0;
        while i < self.instances.len()
            invariant
                i <= self.instances.len(),
                running <= i,
                running == running_count(self@.subrange(0, i as int)),
            decreases self.instances.len() - i,
        {
            proof {
                let next = self@.subrange(0, i + 1);
                assert(next.drop_last() =~= self@.subrange(0, i as int));
                assert(next.last() == self@[i as int]);
            }
            if self.instances[i].status == ServiceStatus::Running {
                running = running + 1;
            }
            i = i + 1;
        }
        proof {
            assert(self@.subrange(0, self@.len() as int) =~= self@);
        }
        LoadReading { running, capacity: self.max_instances }
    }

    /// Whether the load of the pool is at or above `max_load`. A pool
    /// without capacity is busy at every threshold.
    pub fn is_busy(&self, max_load: LoadThreshold) -> (busy: bool)
        ensures
            busy == load_at_least(
                running_count(self@),
                self.capacity(),
                max_load.numer(),
                max_load.denom(),
            ),
    {
        self.check_load().reaches(max_load)
    }

    /// Checks a launch and plans it, without changing the pool.
    ///
    /// `worker_toml` is the text of the file at `config.config_path`, or
    /// `None` where it could not be read; `current_dir` is the directory
    /// against which a relative path is resolved. The launch is refused
    /// with `CapacityReached` where the pool is full, with
    /// `MissingConfigPath` where the declaration names no configuration,
    /// and with `ConfigUnreadable` where the text names no
    /// `server.socket_addr` or the resolved path names no file, in this
    /// order. Otherwise the launch is planned: the worker runs in the
    /// parent of the resolved path and reads the file named by its last
    /// component, and an identifier is drawn for it.
    pub fn prepare_launch(
        &self,
        config: LlamaServerConfig,
        worker_toml: Option<String>,
        current_dir: &str,
    ) -> (outcome: Result<PendingLaunch, LaunchError>)
        ensures
            prepared_launch_allowed(
                self@,
                self.capacity(),
                config@,
                opt_text(worker_toml),
                current_dir@,
                outcome,
            ),
    {
        if self.instances.len() >= self.max_instances {
            return Err(LaunchError::CapacityReached);
        }
        let config_path = match &config.config_path {
            Some(p) => p.clone(),
            None => {
                return Err(LaunchError::MissingConfigPath);
            },
        };
        if config_path.as_str().is_empty() {
            return Err(LaunchError::MissingConfigPath);
        }
        let server_addr = match &worker_toml {
            Some(text) => match toml_lookup_string(text.as_str(), "server", "socket_addr") {
                Some(addr) => addr,
                None => {
                    return Err(LaunchError::ConfigUnreadable);
                },
            },
            None => {
                return Err(LaunchError::ConfigUnreadable);
            },
        };
        let location = match locate_worker(config_path.as_str(), current_dir) {
            Some(l) => l,
            None => {
                return Err(LaunchError::ConfigUnreadable);
            },
        };
        let plan = plan_launch(&config, location.work_dir, location.config_file.as_str());
        Ok(PendingLaunch { id: fresh_id(), config, server_addr, plan })
    }

    /// The identifier under which a record enters the pool, given the one
    /// that was drawn: see `fresh_identifier`.
    fn make_new(&self, drawn: String) -> (id: String)
        ensures
            id@ == fresh_identifier(self@, drawn@),
            !has_id(self@, id@),
    {
        proof {
            law_fresh_identifier_is_new(self@, drawn@);
        }
        let at = self.find(drawn.as_str());
        if at >= self.instances.len() {
            return drawn;
        }
        let mut longest: usize = 0;
        let mut i: usize = 0;
        while i < self.instances.len()
            invariant
                i <= self.instances.len(),
                longest == longest_id(self@.subrange(0, i as int)),
            decreases self.instances.len() - i,
        {
            proof {
                let next = self@.subrange(0, i + 1);
                assert(next.drop_last() =~= self@.subrange(0, i as int));
                assert(next.last() == self@[i as int]);
            }
            let len = self.instances[i].id.as_str().unicode_len();
            if len > longest {
                longest = len;
            }
            i = i + 1;
        }
        proof {
            assert(self@.subrange(0, self@.len() as int) =~= self@);
            lemma_longest_id_bounds(self@);
            assert(self@[at as int].id == drawn@);
            reveal_strlit("-");
        }
        let drawn_len = drawn.as_str().unicode_len();
        let ghost start = drawn@;
        let mut id = drawn;
        let mut k: usize = drawn_len;
        proof {
            assert(id@ =~= start + dashes(0));
        }
        while k < longest
            invariant
                drawn_len <= k <= longest,
                drawn_len == start.len(),
                "-"@ == seq!['-'],
                id@ == start + dashes((k - drawn_len) as nat),
            decreases longest - k,
        {
            id.append("-");
            proof {
                assert(id@ =~= start + dashes((k + 1 - drawn_len) as nat));
            }
            k = k + 1;
        }
        id.append("-");
        proof {
            assert(id@ =~= start + dashes((longest + 1 - drawn_len) as nat));
        }
        id
    }

    /// Admits a planned launch to the pool, unless the pool is full.
    ///
    /// The count that decides is the one at this moment, whatever it was
    /// when the launch was planned. The record enters the pool at its end
    /// and as `Running`, under an identifier that no record in the pool
    /// has: the one that was drawn, made new where it is taken.
    pub fn commit_launch(&mut self, pending: PendingLaunch) -> (outcome: Result<
        Launch,
        LaunchError,
    >)
        requires
            old(self).wf(),
        ensures
            final(self).wf(),
            final(self).capacity() == old(self).capacity(),
            final(self).config_dir() == old(self).config_dir(),
            old(self)@.len() >= old(self).capacity() ==> outcome == Err::<Launch, LaunchError>(
                LaunchError::CapacityReached,
            ) && final(self)@ == old(self)@,
            old(self)@.len() < old(self).capacity() ==> outcome.is_ok() && outcome.unwrap()@ == (
            LaunchView {
                instance: admitted_instance(
                    fresh_identifier(old(self)@, pending.id@),
                    pending.config@,
                    pending.server_addr@,
                ),
                plan: pending.plan@,
            }) && final(self)@ == old(self)@.push(outcome.unwrap().instance@) && !has_id(
                old(self)@,
                outcome.unwrap().instance.id@,
            ),
            final(self)@ == pool_after(old(self)@, outcome),
            outcome matches Ok(l) ==> final(self)@ == apply(
                old(self)@,
                old(self).capacity(),
                PoolOp::Launch(l.instance@),
            ),
    {
        if self.instances.len() >= self.max_instances {
            return Err(LaunchError::CapacityReached);
        }
        let id = self.make_new(pending.id);
        let instance = ServiceInstance {
            id,
            config: pending.config,
            server_addr: pending.server_addr,
            status: ServiceStatus::Running,
        };
        let record = instance.clone();
        let ghost before = self@;
        self.instances.push(record);
        proof {
            assert(self@ =~= before.push(instance@));
            lemma_lookup_push(before, instance@, instance@.id);
            assert forall|i: int| 0 <= i < self@.len() implies (#[trigger] self@[i]).status
                == ServiceStatus::Running by {
                if i < before.len() {
                    assert(self@[i] == before[i]);
                }
            }
        }
        Ok(Launch { instance, plan: pending.plan })
    }

    /// Launches the worker declared by `config`: the launch is checked and
    /// planned as by `prepare_launch` and, where that succeeds, admitted as
    /// by `commit_launch`. A refusal leaves the pool as it was.
    pub fn start_instance_with_config(
        &mut self,
        config: LlamaServerConfig,
        worker_toml: Option<String>,
        current_dir: &str,
    ) -> (outcome: Result<Launch, LaunchError>)
        requires
            old(self).wf(),
        ensures
            final(self).wf(),
            final(self).capacity() == old(self).capacity(),
            final(self).config_dir() == old(self).config_dir(),
            launch_outcome_allowed(
                old(self)@,
                old(self).capacity(),
                config@,
                opt_text(worker_toml),
                current_dir@,
                outcome,
            ),
            final(self)@ == pool_after(old(self)@, outcome),
    {
        match self.prepare_launch(config, worker_toml, current_dir) {
            Ok(pending) => {
                proof {
                    law_fresh_identifier_is_new(self@, pending.id@);
                }
                self.commit_launch(pending)
            },
            Err(e) => Err(e),
        }
    }

    /// Launches every declared worker in order; a refusal skips that worker
    /// and the next one is tried.
    ///
    /// `worker_tomls[i]` is the text of the configuration of `configs[i]`;
    /// a missing or `None` entry stands for a file that could not be read.
    /// The result holds one outcome per declaration, each the outcome of
    /// `start_instance_with_config` on the pool as the earlier ones left it.
    pub fn load_instances(
        &mut self,
        configs: Vec<LlamaServerConfig>,
        worker_tomls: &Vec<Option<String>>,
        current_dir: &str,
    ) -> (outcomes: Vec<Result<Launch, LaunchError>>)
        requires
            old(self).wf(),
        ensures
            final(self).wf(),
            final(self).capacity() == old(self).capacity(),
            final(self).config_dir() == old(self).config_dir(),
            outcomes@.len() == configs@.len(),
            forall|i: int|
                0 <= i < configs@.len() ==> launch_outcome_allowed(
                    pool_after_all(old(self)@, outcomes@.subrange(0, i)),
                    old(self).capacity(),
                    (#[trigger] configs@[i])@,
                    worker_toml_at(worker_tomls@, i),
                    current_dir@,
                    outcomes@[i],
                ),
            final(self)@ == pool_after_all(old(self)@, outcomes@),
    {
        let ghost start = self@;
        let mut outcomes: Vec<Result<Launch, LaunchError>> = Vec::new();
        let mut i: usize = 0;
        proof {
            assert(outcomes@ =~= Seq::<Result<Launch, LaunchError>>::empty());
        }
        while i < configs.len()
            invariant
                i <= configs.len(),
                outcomes@.len() == i,
                self.wf(),
                self.capacity() == old(self).capacity(),
                self.config_dir() == old(self).config_dir(),
                start == old(self)@,
                forall|k: int|
                    0 <= k < i ==> launch_outcome_allowed(
                        pool_after_all(start, outcomes@.subrange(0, k)),
                        self.capacity(),
                        (#[trigger] configs@[k])@,
                        worker_toml_at(worker_tomls@, k),
                        current_dir@,
                        outcomes@[k],
                    ),
                self@ == pool_after_all(start, outcomes@),
            decreases configs.len() - i,
        {
            let worker_toml = if i < worker_tomls.len() {
                crate::text::clone_opt_text(&worker_tomls[i])
            } else {
                None
            };
            let ghost before = outcomes@;
            let outcome = self.start_instance_with_config(
                configs[i].clone(),
                worker_toml,
                current_dir,
            );
            outcomes.push(outcome);
            proof {
                assert(outcomes@.drop_last() =~= before);
                assert(outcomes@.subrange(0, i as int) =~= before);
                assert forall|k: int| 0 <= k < i + 1 implies launch_outcome_allowed(
                    pool_after_all(start, outcomes@.subrange(0, k)),
                    self.capacity(),
                    (#[trigger] configs@[k])@,
                    worker_toml_at(worker_tomls@, k),
                    current_dir@,
                    outcomes@[k],
                ) by {
                    if k < i {
                        assert(outcomes@.subrange(0, k) =~= before.subrange(0, k));
                    }
                }
            }
            i = i + 1;
        }
        proof {
            assert(outcomes@.subrange(0, outcomes@.len() as int) =~= outcomes@);
        }
        outcomes
    }

    /// Removes the record with this identifier. An unknown identifier
    /// changes nothing and gives `None`; this is no error.
    pub fn stop_instance(&mut self, id: &str) -> (outcome: Option<StopOutcome>)
        requires
            old(self).wf(),
        ensures
            final(self).wf(),
            final(self).capacity() == old(self).capacity(),
            final(self).config_dir() == old(self).config_dir(),
            final(self)@ == remove(old(self)@, id@),
            final(self)@ == apply(old(self)@, old(self).capacity(), PoolOp::Stop(id@)),
            outcome.is_some() == has_id(old(self)@, id@),
            outcome matches Some(o) ==> {
                &&& Some(o.instance@) == match lookup(old(self)@, id@) {
                    Some(i) => Some(with_status(i, ServiceStatus::Stopped)),
                    None => None,
                }
                &&& o.scratch_dir@ == old(self).config_dir()
                &&& o.scratch_name@ == scratch_name(id@)
            },
            !has_id(final(self)@, id@),
    {
        let at = self.find(id);
        let ghost before = self@;
        proof {
            lemma_position_range(before, id@);
        }
        if at < self.instances.len() {
            let mut instance = self.instances.remove(at);
            instance.status = ServiceStatus::Stopped;
            proof {
                assert(self@ =~= before.remove(at as int));
                assert forall|k: int| 0 <= k < self@.len() implies (#[trigger] self@[k]).id
                    != id@ by {
                    if k < at {
                        assert(self@[k] == before[k]);
                    } else {
                        assert(self@[k] == before[k + 1]);
                    }
                }
                lemma_position_absent(self@, id@);
                lemma_remove_keeps_inv(before, self.capacity(), id@);
            }
            Some(
                StopOutcome {
                    instance,
                    scratch_dir: self.config_dir.clone(),
                    scratch_name: concat(id, ".toml"),
                },
            )
        } else {
            None
        }
    }

    /// Removes every record, as a gateway does when it shuts down: each
    /// instance is to be asked to stop, in the order of admission. Nothing
    /// waits for the processes to exit.
    pub fn stop_all(&mut self) -> (outcomes: Vec<StopOutcome>)
        requires
            old(self).wf(),
        ensures
            final(self).wf(),
            final(self).capacity() == old(self).capacity(),
            final(self).config_dir() == old(self).config_dir(),
            final(self)@.len() == 0,
            outcomes@.len() == old(self)@.len(),
            forall|i: int|
                0 <= i < outcomes@.len() ==> {
                    &&& (#[trigger] outcomes@[i]).instance@ == with_status(
                        old(self)@[i],
                        ServiceStatus::Stopped,
                    )
                    &&& outcomes@[i].scratch_dir@ == old(self).config_dir()
                    &&& outcomes@[i].scratch_name@ == scratch_name(old(self)@[i].id)
                },
    {
        let mut outcomes: Vec<StopOutcome> = Vec::new();
        let ghost start = self@;
        let mut i: usize = 0;
        while i < self.instances.len()
            invariant
                i <= self.instances.len(),
                self@ == start,
                start == old(self)@,
                self.wf(),
                self.capacity() == old(self).capacity(),
                self.config_dir() == old(self).config_dir(),
                outcomes@.len() == i,
                forall|k: int|
                    0 <= k < i ==> {
                        &&& (#[trigger] outcomes@[k]).instance@ == with_status(
                            start[k],
                            ServiceStatus::Stopped,
                        )
                        &&& outcomes@[k].scratch_dir@ == self.config_dir()
                        &&& outcomes@[k].scratch_name@ == scratch_name(start[k].id)
                    },
            decreases self.instances.len() - i,
        {
            let mut instance = self.instances[i].clone();
            instance.status = ServiceStatus::Stopped;
            let name = concat(self.instances[i].id.as_str(), ".toml");
            outcomes.push(
                StopOutcome { instance, scratch_dir: self.config_dir.clone(), scratch_name: name },
            );
            i = i + 1;
        }
        self.instances.clear();
        proof {
            assert(self@ =~= Seq::<InstanceView>::empty());
        }
        outcomes
    }

    /// Records that the process of the instance `id` has exited: the record
    /// becomes `Stopped` and leaves the pool, and is handed back. An
    /// unknown identifier changes nothing and gives `None`.
    pub fn mark_exited(&mut self, id: &str) -> (exited: Option<ServiceInstance>)
        requires
            old(self).wf(),
        ensures
            final(self).wf(),
            final(self).capacity() == old(self).capacity(),
            final(self).config_dir() == old(self).config_dir(),
            final(self)@ == remove(old(self)@, id@),
            final(self)@ == apply(old(self)@, old(self).capacity(), PoolOp::Exit(id@)),
            exited.is_some() == has_id(old(self)@, id@),
            exited matches Some(i) ==> Some(i@) == match lookup(old(self)@, id@) {
                Some(r) => Some(with_status(r, ServiceStatus::Stopped)),
                None => None,
            },
            !has_id(final(self)@, id@),
    {
        match self.stop_instance(id) {
            Some(outcome) => Some(outcome.instance),
            None => None,
        }
    }

    /// The instance a request is dispatched to: the first running one in
    /// the order of admission.
    pub fn select_running(&self) -> (chosen: Option<&ServiceInstance>)
        ensures
            chosen.is_some() == first_running(self@).is_some(),
            chosen matches Some(i) ==> Some(i@) == first_running(self@),
    {
        let mut i: usize = 0;
        while i < self.instances.len()
            invariant
                i <= self.instances.len(),
                forall|k: int|
                    0 <= k < i ==> (#[trigger] self@[k]).status != ServiceStatus::Running,
            decreases self.instances.len() - i,
        {
            if self.instances[i].status == ServiceStatus::Running {
                proof {
                    assert(self@[i as int].status == ServiceStatus::Running);
                    assert(is_first_running(self@, i as int));
                    lemma_first_running_found(self@, i as int);
                }
                return Some(&self.instances[i]);
            }
            i = i + 1;
        }
        proof {
            lemma_first_running_absent(self@);
        }
        None
    }

    /// Plans the call that carries a request to a worker.
    ///
    /// Fails with `NoCandidate` where no instance is running. Otherwise the
    /// first running instance is chosen, and the call goes to `http://`,
    /// its address and `path`, with the method, all headers and the body
    /// as they came; a method that is no HTTP token fails with `Upstream`.
    pub fn forward_request(
        &self,
        path: &str,
        method: &str,
        body: Vec<u8>,
        headers: Vec<(String, String)>,
    ) -> (outcome: Result<UpstreamCall, DispatchError>)
        ensures
            forward_plan(self@, path@, method@, body@, headers.deep_view(), outcome),
    {
        let instance = match self.select_running() {
            Some(i) => i,
            None => {
                return Err(DispatchError::NoCandidate);
            },
        };
        if !method_accepted(method) {
            return Err(DispatchError::Upstream("invalid HTTP method".to_owned()));
        }
        let url = concat3("http://", instance.server_addr.as_str(), path);
        Ok(UpstreamCall { url, method: method.to_owned(), headers, body })
    }

    /// Plans the call of a streamed response. The worker and the call are
    /// chosen as for a buffered response; what comes back is relayed chunk
    /// by chunk by a `StreamRelay`.
    pub fn forward_request_stream(
        &self,
        path: &str,
        method: &str,
        body: Vec<u8>,
        headers: Vec<(String, String)>,
    ) -> (outcome: Result<UpstreamCall, DispatchError>)
        ensures
            forward_plan(self@, path@, method@, body@, headers.deep_view(), outcome),
    {
        self.forward_request(path, method, body, headers)
    }
}

/// What the plan of a dispatch is, on a pool and a request.
pub open spec fn forward_plan(
    pool: PoolView,
    path: Seq<char>,
    method: Seq<char>,
    body: Seq<u8>,
    headers: crate::message::HeadersView,
    outcome: Result<UpstreamCall, DispatchError>,
) -> bool {
    match first_running(pool) {
        None => outcome matches Err(e) && e@ == DispatchErrorView::NoCandidate,
        Some(instance) => if is_method_token(method) {
            outcome matches Ok(call) && call@ == (UpstreamCallView {
                url: upstream_url(instance.server_addr, path),
                method,
                headers,
                body,
            })
        } else {
            outcome matches Err(e) && e@ == DispatchErrorView::Upstream(invalid_method_cause())
        },
    }
}

/// The pool after a launch with this outcome.
pub open spec fn pool_after(pool: PoolView, outcome: Result<Launch, LaunchError>) -> PoolView {
    match outcome {
        Ok(l) => pool.push(l.instance@),
        Err(_) => pool,
    }
}

/// The pool after launches with these outcomes, one after the other.
pub open spec fn pool_after_all(pool: PoolView, outcomes: Seq<Result<Launch, LaunchError>>) -> PoolView
    decreases outcomes.len(),
{
    if outcomes.len() == 0 {
        pool
    } else {
        pool_after(pool_after_all(pool, outcomes.drop_last()), outcomes.last())
    }
}

/// The text of the worker configuration of the declaration `i`.
pub open spec fn worker_toml_at(worker_tomls: Seq<Option<String>>, i: int) -> Option<Seq<char>> {
    if 0 <= i < worker_tomls.len() {
        opt_text(worker_tomls[i])
    } else {
        None
    }
}

/// What a launch is planned from, where it is not refused: the resolved
/// configuration path of the declaration.
pub open spec fn resolved_path_of(
    config: crate::config::LlamaServerConfigView,
    current_dir: Seq<char>,
) -> Seq<char> {
    resolved_config_path(crate::launch::path_or_empty(config.config_path), current_dir)
}

/// What the planning of a launch hands back on a pool, a declaration, the
/// text of the worker's configuration and the current directory.
///
/// A refusal named by `launch_refusal` is the outcome. Where there is
/// none, a resolved configuration path without a last component is refused
/// with `ConfigUnreadable`; every other launch is planned, with the
/// declared configuration, the address that the worker's configuration
/// names, a drawn identifier of 36 characters, and the plan that runs the
/// worker in the parent of the resolved path on the file named by its last
/// component.
pub open spec fn prepared_launch_allowed(
    pool: PoolView,
    capacity: nat,
    config: crate::config::LlamaServerConfigView,
    worker_toml: Option<Seq<char>>,
    current_dir: Seq<char>,
    outcome: Result<PendingLaunch, LaunchError>,
) -> bool {
    match launch_refusal(pool, capacity, config.config_path, worker_toml) {
        Some(e) => outcome == Err::<PendingLaunch, LaunchError>(e),
        None => match path_file_name_of(resolved_path_of(config, current_dir)) {
            Some(file) => {
                &&& outcome matches Ok(p)
                &&& outcome matches Ok(p) ==> {
                    &&& p.config@ == config
                    &&& p.server_addr@ == worker_addr(worker_toml).unwrap()
                    &&& p.id@.len() == 36
                    &&& p.plan@ == launch_plan(
                        config,
                        worker_dir(resolved_path_of(config, current_dir)),
                        file,
                    )
                }
            },
            None => outcome == Err::<PendingLaunch, LaunchError>(LaunchError::ConfigUnreadable),
        },
    }
}

/// What a launch hands back on a pool, a declaration, the text of the
/// worker's configuration and the current directory.
///
/// A refusal named by `launch_refusal` is the outcome. Where there is
/// none, a resolved configuration path without a last component is refused
/// with `ConfigUnreadable`; every other launch is admitted. The record has
/// the declared configuration, the address that the worker's configuration
/// names and the status `Running`. Its identifier is new to the pool: 36
/// drawn characters, made new by `fresh_identifier` where a record has
/// them already. The plan runs the worker in the parent of the resolved
/// path on the file named by its last component.
pub open spec fn launch_outcome_allowed(
    pool: PoolView,
    capacity: nat,
    config: crate::config::LlamaServerConfigView,
    worker_toml: Option<Seq<char>>,
    current_dir: Seq<char>,
    outcome: Result<Launch, LaunchError>,
) -> bool {
    match launch_refusal(pool, capacity, config.config_path, worker_toml) {
        Some(e) => outcome == Err::<Launch, LaunchError>(e),
        None => match path_file_name_of(resolved_path_of(config, current_dir)) {
            Some(file) => {
                &&& outcome matches Ok(l)
                &&& outcome matches Ok(l) ==> {
                    &&& l.instance@ == admitted_instance(
                        l.instance.id@,
                        config,
                        worker_addr(worker_toml).unwrap(),
                    )
                    &&& l.instance.id@.len() >= 36
                    &&& l.instance.id@ == fresh_identifier(pool, l.instance.id@.subrange(0, 36))
                    &&& !has_id(pool, l.instance.id@)
                    &&& l.plan@ == launch_plan(
                        config,
                        worker_dir(resolved_path_of(config, current_dir)),
                        file,
                    )
                }
            },
            None => outcome == Err::<Launch, LaunchError>(LaunchError::ConfigUnreadable),
        },
    }
}

} // verus!
