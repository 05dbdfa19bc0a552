//! The node's commands and its health query. Each holds the handles of the
//! two proxy back-ends it works on; what the command decides is stated here,
//! the calls into the back-ends are made by the caller, step by step.
use vstd::prelude::*;

use crate::text::{concat2, concat4, join, join_spec, owned, views};
use crate::traffic::{sum_tables, sums_fit, TrafficTable};

verus! {

/// The error text of an outcome, if it failed.
pub open spec fn failure_of(r: Result<(), String>) -> Option<Seq<char>> {
    match r {
        Ok(_) => None,
        Err(e) => Some(e@),
    }
}

/// Adds a user to every requested Xray inbound and to Hysteria2, and takes
/// the Xray additions back when any addition fails.
pub struct AddUserCommand<X, H> {
    xray_client: X,
    hysteria_client: H,
}

impl<X, H> AddUserCommand<X, H> {
    pub closed spec fn xray(&self) -> X {
        self.xray_client
    }

    pub closed spec fn hysteria(&self) -> H {
        self.hysteria_client
    }

    /// A command working on these two back-ends.
    pub fn new(xray_client: X, hysteria_client: H) -> (c: Self)
        ensures
            c.xray() == xray_client,
            c.hysteria() == hysteria_client,
    {
        AddUserCommand { xray_client, hysteria_client }
    }

    /// The Xray back-end.
    pub fn xray_client(&self) -> (x: &X)
        ensures
            *x == self.xray(),
    {
        &self.xray_client
    }

    /// The Hysteria2 back-end.
    pub fn hysteria_client(&self) -> (h: &H)
        ensures
            *h == self.hysteria(),
    {
        &self.hysteria_client
    }

    /// The run of this command for `uuid` on `inbound_tags`, before any step.
    pub fn begin(&self, uuid: String, inbound_tags: Vec<String>) -> (run: AddUserRun)
        ensures
            run.wf(),
            run.uuid() == uuid,
            run.tags() == inbound_tags@,
            run.added() == 0,
            run.removed() == 0,
            !run.hysteria_added(),
            run.failure() is None,
    {
        AddUserRun::new(uuid, inbound_tags)
    }
}

/// The next call an add-user run asks for.
pub enum AddUserStep {
    /// Add the user with this email and VLESS id to this Xray inbound.
    AddXray { tag: String, email: String, uuid: String },
    /// Add the user with this credential to Hysteria2.
    AddHysteria { uuid: String },
    /// Take the user with this email back out of this Xray inbound; its
    /// outcome does not matter.
    RemoveXray { tag: String, email: String },
    /// The command is over, with this result.
    Done(Result<(), String>),
}

/// An add-user run: the inbounds to go through, how many were added, how
/// many of those were taken back, and the failure being reported, if any.
pub struct AddUserRun {
    uuid: String,
    tags: Vec<String>,
    added: usize,
    removed: usize,
    hysteria_added: bool,
    failure: Option<String>,
}

impl AddUserRun {
    #[verifier::type_invariant]
    spec fn consistent(self) -> bool {
        &&& self.removed <= self.added <= self.tags@.len()
        &&& self.failure is None ==> self.removed == 0
        &&& self.hysteria_added ==> self.added == self.tags@.len() && self.failure is None
    }

    /// The user being added.
    pub closed spec fn uuid(self) -> String {
        self.uuid
    }

    /// The Xray inbounds to add the user to, in order.
    pub closed spec fn tags(self) -> Seq<String> {
        self.tags@
    }

    /// How many of the inbounds, from the first, the user was added to.
    pub closed spec fn added(self) -> nat {
        self.added as nat
    }

    /// How many of the added inbounds, from the first, the user was taken back out of.
    pub closed spec fn removed(self) -> nat {
        self.removed as nat
    }

    /// Whether the user was added to Hysteria2.
    pub closed spec fn hysteria_added(self) -> bool {
        self.hysteria_added
    }

    /// The error that the run will end with, once it has failed.
    pub closed spec fn failure(self) -> Option<Seq<char>> {
        match self.failure {
            Some(f) => Some(f@),
            None => None,
        }
    }

    /// What the run asks for next.
    pub open spec fn next_spec(self, step: AddUserStep) -> bool {
        if self.failure() is Some {
            if self.removed() < self.added() {
                step matches AddUserStep::RemoveXray { tag, email } && tag == self.tags()[self.removed() as int]
                    && email == self.uuid()
            } else {
                step matches AddUserStep::Done(Err(e)) && e@ == self.failure()->0
            }
        } else if self.added() < self.tags().len() {
            step matches AddUserStep::AddXray { tag, email, uuid } && tag == self.tags()[self.added() as int]
                && email == self.uuid() && uuid == self.uuid()
        } else if !self.hysteria_added() {
            step matches AddUserStep::AddHysteria { uuid } && uuid == self.uuid()
        } else {
            step matches AddUserStep::Done(Ok(_))
        }
    }

    /// The internal consistency of a run: the counters stay in range, only a
    /// failed run takes anything back, and Hysteria2 comes after every Xray inbound.
    pub closed spec fn wf(self) -> bool {
        self.consistent()
    }

    /// Whether the run is over: `next` answers `Done`.
    pub open spec fn is_done(self) -> bool {
        if self.failure() is Some {
            self.removed() >= self.added()
        } else {
            self.added() >= self.tags().len() && self.hysteria_added()
        }
    }

    /// A measure that every step which does not end the run lowers.
    pub open spec fn steps_left(self) -> int {
        if self.failure() is Some {
            self.added() - self.removed()
        } else {
            (self.tags().len() - self.added()) + self.tags().len() + 1 + (if self.hysteria_added() {
                0int
            } else {
                1int
            })
        }
    }

    fn new(uuid: String, tags: Vec<String>) -> (run: AddUserRun)
        ensures
            run.wf(),
            run.uuid() == uuid,
            run.tags() == tags@,
            run.added() == 0,
            run.removed() == 0,
            !run.hysteria_added(),
            run.failure() is None,
    {
        AddUserRun { uuid, tags, added: 0, removed: 0, hysteria_added: false, failure: None }
    }

    /// What the run asks for next.
    pub fn next(&self) -> (step: AddUserStep)
        ensures
            self.next_spec(step),
    {
        proof {
            use_type_invariant(self);
        }
        match &self.failure {
            Some(f) => {
                if self.removed < self.added {
                    AddUserStep::RemoveXray {
                        tag: self.tags[self.removed].clone(),
                        email: self.uuid.clone(),
                    }
                } else {
                    AddUserStep::Done(Err(f.clone()))
                }
            },
            None => {
                if self.added < self.tags.len() {
                    AddUserStep::AddXray {
                        tag: self.tags[self.added].clone(),
                        email: self.uuid.clone(),
                        uuid: self.uuid.clone(),
                    }
                } else if !self.hysteria_added {
                    AddUserStep::AddHysteria { uuid: self.uuid.clone() }
                } else {
                    AddUserStep::Done(Ok(()))
                }
            },
        }
    }

    /// Records the outcome of the step that `next` asked for. An added inbound
    /// counts; the first failure is kept, worded as the command reports it,
    /// and from then on the added inbounds are taken back one by one.
    pub fn complete(&mut self, outcome: Result<(), String>)
        ensures
            final(self).wf(),
            final(self).uuid() == old(self).uuid(),
            final(self).tags() == old(self).tags(),
            ({
                let s = *old(self);
                let t = *final(self);
                if s.failure() is Some {
                    if s.removed() < s.added() {
                        t.removed() == s.removed() + 1 && t.added() == s.added()
                            && t.failure() == s.failure() && t.hysteria_added() == s.hysteria_added()
                    } else {
                        t == s
                    }
                } else if s.added() < s.tags().len() {
                    match outcome {
                        Ok(_) => t.added() == s.added() + 1 && t.removed() == 0 && t.failure() is None
                            && !t.hysteria_added(),
                        Err(e) => t.added() == s.added() && t.removed() == 0 && !t.hysteria_added()
                            && t.failure() == Some(
                            "Xray failed to add user on tag "@ + s.tags()[s.added() as int]@ + ": "@
                                + e@,
                        ),
                    }
                } else if !s.hysteria_added() {
                    match outcome {
                        Ok(_) => t.hysteria_added() && t.added() == s.added() && t.removed() == 0
                            && t.failure() is None,
                        Err(e) => !t.hysteria_added() && t.added() == s.added() && t.removed() == 0
                            && t.failure() == Some("Hysteria2 failed to add user: "@ + e@),
                    }
                } else {
                    t == s
                }
            }),
            !old(self).is_done() ==> 0 <= final(self).steps_left() < old(self).steps_left(),
    {
        proof {
            use_type_invariant(&*self);
        }
        if self.failure.is_some() {
            if self.removed < self.added {
                self.removed = self.removed + 1;
            }
        } else if self.added < self.tags.len() {
            match outcome {
                Ok(_) => {
                    self.added = self.added + 1;
                },
                Err(e) => {
                    let msg = concat4(
                        "Xray failed to add user on tag ",
                        self.tags[self.added].as_str(),
                        ": ",
                        e.as_str(),
                    );
                    self.failure = Some(msg);
                },
            }
        } else if !self.hysteria_added {
            match outcome {
                Ok(_) => {
                    self.hysteria_added = true;
                },
                Err(e) => {
                    self.failure = Some(concat2("Hysteria2 failed to add user: ", e.as_str()));
                },
            }
        }
        proof {
            use_type_invariant(&*self);
        }
    }
}

/// A run that has ended with an error has taken the user back out of every
/// Xray inbound it had added the user to, and never added the user to Hysteria2.
pub proof fn lemma_failed_run_rolled_back(run: AddUserRun, e: String)
    requires
        run.wf(),
        run.next_spec(AddUserStep::Done(Err(e))),
    ensures
        run.removed() == run.added(),
        run.failure() == Some(e@),
{
}

/// A run that has ended well added the user to every requested Xray inbound
/// and to Hysteria2, and took nothing back.
pub proof fn lemma_successful_run_added_everywhere(run: AddUserRun)
    requires
        run.wf(),
        run.next_spec(AddUserStep::Done(Ok(()))),
    ensures
        run.added() == run.tags().len(),
        run.hysteria_added(),
        run.removed() == 0,
        run.failure() is None,
{
}

/// Removes a user from every requested Xray inbound and from Hysteria2,
/// carrying on past failures and reporting them all at the end.
pub struct RemoveUserCommand<X, H> {
    xray_client: X,
    hysteria_client: H,
}

/// The failures of a removal, in order, each worded as the command reports it.
pub open spec fn removal_errors(
    tags: Seq<Seq<char>>,
    xray: Seq<Option<Seq<char>>>,
    hysteria: Option<Seq<char>>,
) -> Seq<Seq<char>>
    decreases xray.len(),
{
    if xray.len() == 0 {
        match hysteria {
            Some(e) => seq!["Hysteria2: "@ + e],
            None => Seq::empty(),
        }
    } else {
        let rest = removal_errors(tags.drop_first(), xray.drop_first(), hysteria);
        match xray[0] {
            Some(e) => seq!["Xray tag "@ + tags[0] + ": "@ + e] + rest,
            None => rest,
        }
    }
}

/// A removal reports no error exactly when every Xray removal and the
/// Hysteria2 removal succeeded; each failure adds at least one reported error.
pub proof fn lemma_removal_fails_iff_a_step_failed(
    tags: Seq<Seq<char>>,
    xray: Seq<Option<Seq<char>>>,
    hysteria: Option<Seq<char>>,
)
    ensures
        removal_errors(tags, xray, hysteria).len() == 0 <==> hysteria is None && forall|i: int|
            0 <= i < xray.len() ==> #[trigger] xray[i] is None,
        removal_errors(tags, xray, hysteria).len() <= xray.len() + 1,
    decreases xray.len(),
{
    if xray.len() > 0 {
        let rest = xray.drop_first();
        lemma_removal_fails_iff_a_step_failed(tags.drop_first(), rest, hysteria);
        if forall|i: int| 0 <= i < rest.len() ==> #[trigger] rest[i] is None {
            if xray[0] is None {
                assert forall|i: int| 0 <= i < xray.len() implies #[trigger] xray[i] is None by {
                    if i > 0 {
                        assert(xray[i] == rest[i - 1]);
                    }
                }
            }
        }
        if forall|i: int| 0 <= i < xray.len() ==> #[trigger] xray[i] is None {
            assert forall|i: int| 0 <= i < rest.len() implies #[trigger] rest[i] is None by {
                assert(rest[i] == xray[i + 1]);
            }
        }
    }
}

proof fn lemma_removal_errors_step(
    tags: Seq<Seq<char>>,
    xray: Seq<Option<Seq<char>>>,
    hysteria: Option<Seq<char>>,
    i: int,
)
    requires
        0 <= i < xray.len(),
        tags.len() == xray.len(),
    ensures
        removal_errors(tags.subrange(i, tags.len() as int), xray.subrange(i, xray.len() as int), hysteria)
            == (match xray[i] {
            Some(e) => seq!["Xray tag "@ + tags[i] + ": "@ + e],
            None => Seq::<Seq<char>>::empty(),
        }) + removal_errors(
            tags.subrange(i + 1, tags.len() as int),
            xray.subrange(i + 1, xray.len() as int),
            hysteria,
        ),
{
    let t = tags.subrange(i, tags.len() as int);
    let x = xray.subrange(i, xray.len() as int);
    assert(t.drop_first() =~= tags.subrange(i + 1, tags.len() as int));
    assert(x.drop_first() =~= xray.subrange(i + 1, xray.len() as int));
    assert(x[0] == xray[i]);
    assert(t[0] == tags[i]);
    let rest = removal_errors(t.drop_first(), x.drop_first(), hysteria);
    match xray[i] {
        Some(e) => {},
        None => {
            assert(Seq::<Seq<char>>::empty() + rest =~= rest);
        },
    }
}

impl<X, H> RemoveUserCommand<X, H> {
    pub closed spec fn xray(&self) -> X {
        self.xray_client
    }

    pub closed spec fn hysteria(&self) -> H {
        self.hysteria_client
    }

    /// A command working on these two back-ends.
    pub fn new(xray_client: X, hysteria_client: H) -> (c: Self)
        ensures
            c.xray() == xray_client,
            c.hysteria() == hysteria_client,
    {
        RemoveUserCommand { xray_client, hysteria_client }
    }

    /// The Xray back-end.
    pub fn xray_client(&self) -> (x: &X)
        ensures
            *x == self.xray(),
    {
        &self.xray_client
    }

    /// The Hysteria2 back-end.
    pub fn hysteria_client(&self) -> (h: &H)
        ensures
            *h == self.hysteria(),
    {
        &self.hysteria_client
    }

    /// The result of a removal from the outcome on each Xray inbound, in the
    /// order of `inbound_tags`, and the outcome on Hysteria2: success when
    /// nothing failed, else every failure, joined with "; ".
    pub fn summarize(
        inbound_tags: &Vec<String>,
        xray_outcomes: &Vec<Result<(), String>>,
        hysteria_outcome: &Result<(), String>,
    ) -> (r: Result<(), String>)
        requires
            xray_outcomes@.len() == inbound_tags@.len(),
        ensures
            ({
                let errors = removal_errors(
                    views(inbound_tags@),
                    xray_outcomes@.map_values(|o: Result<(), String>| failure_of(o)),
                    failure_of(*hysteria_outcome),
                );
                if errors.len() == 0 {
                    r is Ok
                } else {
                    r matches Err(m) && m@ == "Errors during user removal: "@ + join_spec(errors, "; "@)
                }
            }),
    {
        let ghost tags = views(inbound_tags@);
        let ghost xs = xray_outcomes@.map_values(|o: Result<(), String>| failure_of(o));
        let ghost h = failure_of(*hysteria_outcome);
        let mut errors: Vec<String> = Vec::new();
        proof {
            assert(tags.subrange(0, tags.len() as int) =~= tags);
            assert(xs.subrange(0, xs.len() as int) =~= xs);
            assert(views(errors@) =~= Seq::<Seq<char>>::empty());
            assert(Seq::<Seq<char>>::empty() + removal_errors(tags, xs, h) =~= removal_errors(tags, xs, h));
        }
        let mut i: usize = 0;
        while i < xray_outcomes.len()
            invariant
                xray_outcomes@.len() == inbound_tags@.len(),
                tags == views(inbound_tags@),
                xs == xray_outcomes@.map_values(|o: Result<(), String>| failure_of(o)),
                h == failure_of(*hysteria_outcome),
                i <= xray_outcomes@.len(),
                views(errors@) + removal_errors(
                    tags.subrange(i as int, tags.len() as int),
                    xs.subrange(i as int, xs.len() as int),
                    h,
                ) == removal_errors(tags, xs, h),
            decreases xray_outcomes.len() - i,
        {
            proof {
                lemma_removal_errors_step(tags, xs, h, i as int);
            }
            match &xray_outcomes[i] {
                Ok(_) => {},
                Err(e) => {
                    let msg = concat4("Xray tag ", inbound_tags[i].as_str(), ": ", e.as_str());
                    proof {
                        assert(views(errors@.push(msg)) =~= views(errors@).push(msg@));
                        assert(xs[i as int] == Some(e@));
                        assert(tags[i as int] == inbound_tags@[i as int]@);
                    }
                    errors.push(msg);
                },
            }
            proof {
                let rest = removal_errors(
                    tags.subrange(i + 1, tags.len() as int),
                    xs.subrange(i + 1, xs.len() as int),
                    h,
                );
                match xs[i as int] {
                    Some(e) => {
                        assert(views(errors@) + rest =~= views(errors@).drop_last() + (seq![
                            views(errors@).last()] + rest));
                    },
                    None => {
                        assert(Seq::<Seq<char>>::empty() + rest =~= rest);
                    },
                }
            }
            i = i + 1;
        }
        match hysteria_outcome {
            Ok(_) => {},
            Err(e) => {
                let msg = concat2("Hysteria2: ", e.as_str());
                proof {
                    assert(views(errors@.push(msg)) =~= views(errors@).push(msg@));
                }
                errors.push(msg);
            },
        }
        proof {
            assert(tags.subrange(i as int, tags.len() as int) =~= Seq::<Seq<char>>::empty());
            assert(xs.subrange(i as int, xs.len() as int) =~= Seq::<Option<Seq<char>>>::empty());
            match h {
                Some(e) => {
                    assert(views(errors@) =~= removal_errors(tags, xs, h));
                },
                None => {
                    assert(views(errors@) =~= removal_errors(tags, xs, h));
                },
            }
        }
        if errors.len() == 0 {
            Ok(())
        } else {
            let joined = join(&errors, "; ");
            Err(concat2("Errors during user removal: ", joined.as_str()))
        }
    }
}

/// Collects the traffic of both back-ends into one report.
pub struct ReportTrafficCommand<X, H> {
    xray_client: X,
    hysteria_client: H,
}

impl<X, H> ReportTrafficCommand<X, H> {
    pub closed spec fn xray(&self) -> X {
        self.xray_client
    }

    pub closed spec fn hysteria(&self) -> H {
        self.hysteria_client
    }

    /// A command working on these two back-ends.
    pub fn new(xray_client: X, hysteria_client: H) -> (c: Self)
        ensures
            c.xray() == xray_client,
            c.hysteria() == hysteria_client,
    {
        ReportTrafficCommand { xray_client, hysteria_client }
    }

    /// The Xray back-end.
    pub fn xray_client(&self) -> (x: &X)
        ensures
            *x == self.xray(),
    {
        &self.xray_client
    }

    /// The Hysteria2 back-end.
    pub fn hysteria_client(&self) -> (h: &H)
        ensures
            *h == self.hysteria(),
    {
        &self.hysteria_client
    }

    /// The report so far after asking Xray: its counts, or the command's
    /// error, in which case Hysteria2 is not asked.
    pub fn after_xray(xray_stats: Result<TrafficTable, String>) -> (r: Result<TrafficTable, String>)
        ensures
            match xray_stats {
                Ok(t) => r matches Ok(a) && a@ == t@,
                Err(e) => r matches Err(m) && m@ == "ReportTraffic failed to query Xray stats: "@ + e@,
            },
    {
        match xray_stats {
            Ok(t) => {
                let mut aggregated = TrafficTable::new();
                proof {
                    assert(sums_fit(aggregated@, t@));
                }
                aggregated.merge(&t);
                proof {
                    assert(aggregated@ =~= t@);
                }
                Ok(aggregated)
            },
            Err(e) => Err(concat2("ReportTraffic failed to query Xray stats: ", e.as_str())),
        }
    }

    /// The whole report: the Xray counts with the Hysteria2 counts added
    /// user by user, or the command's error.
    pub fn after_hysteria(aggregated: TrafficTable, hysteria_stats: Result<TrafficTable, String>) -> (r:
        Result<TrafficTable, String>)
        requires
            hysteria_stats matches Ok(h) ==> sums_fit(aggregated@, h@),
        ensures
            match hysteria_stats {
                Ok(h) => r matches Ok(a) && a@ == sum_tables(aggregated@, h@),
                Err(e) => r matches Err(m) && m@ == "ReportTraffic failed to query Hysteria2 stats: "@
                    + e@,
            },
    {
        match hysteria_stats {
            Ok(h) => {
                let mut aggregated = aggregated;
                aggregated.merge(&h);
                Ok(aggregated)
            },
            Err(e) => Err(concat2("ReportTraffic failed to query Hysteria2 stats: ", e.as_str())),
        }
    }
}

/// Whether the node's back-ends answer.
#[derive(Debug, Clone, PartialEq, Eq)]
pub enum NodeHealth {
    Online,
    Degraded(String),
}

/// Asks both back-ends whether they are up.
pub struct HealthCheckQuery<X, H> {
    xray_client: X,
    hysteria_client: H,
}

impl<X, H> HealthCheckQuery<X, H> {
    pub closed spec fn xray(&self) -> X {
        self.xray_client
    }

    pub closed spec fn hysteria(&self) -> H {
        self.hysteria_client
    }

    /// A query on these two back-ends.
    pub fn new(xray_client: X, hysteria_client: H) -> (c: Self)
        ensures
            c.xray() == xray_client,
            c.hysteria() == hysteria_client,
    {
        HealthCheckQuery { xray_client, hysteria_client }
    }

    /// The Xray back-end.
    pub fn xray_client(&self) -> (x: &X)
        ensures
            *x == self.xray(),
    {
        &self.xray_client
    }

    /// The Hysteria2 back-end.
    pub fn hysteria_client(&self) -> (h: &H)
        ensures
            *h == self.hysteria(),
    {
        &self.hysteria_client
    }

    /// The node's health from whether each back-end answered its ping.
    pub fn health(xray_ok: bool, hysteria_ok: bool) -> (h: NodeHealth)
        ensures
            match (xray_ok, hysteria_ok) {
                (true, true) => h is Online,
                (false, true) => h matches NodeHealth::Degraded(m) && m@ == "Xray API is not responding"@,
                (true, false) => h matches NodeHealth::Degraded(m) && m@ == "Hysteria API is not responding"@,
                (false, false) => h matches NodeHealth::Degraded(m) && m@
                    == "Both Xray and Hysteria APIs are not responding"@,
            },
    {
        if xray_ok && hysteria_ok {
            NodeHealth::Online
        } else if !xray_ok && hysteria_ok {
            NodeHealth::Degraded(owned("Xray API is not responding"))
        } else if xray_ok && !hysteria_ok {
            NodeHealth::Degraded(owned("Hysteria API is not responding"))
        } else {
            NodeHealth::Degraded(owned("Both Xray and Hysteria APIs are not responding"))
        }
    }
}

} // verus!
