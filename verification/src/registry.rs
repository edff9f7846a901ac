//! The registry of running probe loops: which hosts have one, and the
//! commands that starting and stopping them give out.

use crate::addr::HostAddr;
use crate::distinct::lemma_contains_last;
use std::collections::HashSet;
use vstd::prelude::*;

verus! {

/// What the supervisor asks of whoever runs the probe loops.
#[derive(Clone, Copy, Debug, PartialEq, Eq, Structural)]
pub enum TaskCommand {
    /// Create a cancellation signal and spawn a probe loop for the host.
    Start(HostAddr),
    /// Signal cancellation to the host's probe loop, then end it.
    Stop(HostAddr),
}

/// The registry after a start for `ip`: the host runs.
pub open spec fn started(running: Set<HostAddr>, ip: HostAddr) -> Set<HostAddr> {
    running.insert(ip)
}

/// The commands of a start for `ip`: one, unless the host runs already.
pub open spec fn start_commands(running: Set<HostAddr>, ip: HostAddr) -> Seq<TaskCommand> {
    if running.contains(ip) {
        Seq::empty()
    } else {
        seq![TaskCommand::Start(ip)]
    }
}

/// The registry after a stop for `ip`: the host does not run.
pub open spec fn stopped(running: Set<HostAddr>, ip: HostAddr) -> Set<HostAddr> {
    running.remove(ip)
}

/// The commands of a stop for `ip`: one, if the host runs.
pub open spec fn stop_commands(running: Set<HostAddr>, ip: HostAddr) -> Seq<TaskCommand> {
    if running.contains(ip) {
        seq![TaskCommand::Stop(ip)]
    } else {
        Seq::empty()
    }
}

/// The registry after a start for each of `ips`, in order.
pub open spec fn started_all(running: Set<HostAddr>, ips: Seq<HostAddr>) -> Set<HostAddr>
    decreases ips.len(),
{
    if ips.len() == 0 {
        running
    } else {
        started(started_all(running, ips.drop_last()), ips.last())
    }
}

/// The commands of a start for each of `ips`, in order.
pub open spec fn start_all_commands(running: Set<HostAddr>, ips: Seq<HostAddr>) -> Seq<
    TaskCommand,
>
    decreases ips.len(),
{
    if ips.len() == 0 {
        Seq::empty()
    } else {
        start_all_commands(running, ips.drop_last()) + start_commands(
            started_all(running, ips.drop_last()),
            ips.last(),
        )
    }
}

/// The registry after a stop for each of `ips`, in order.
pub open spec fn stopped_all(running: Set<HostAddr>, ips: Seq<HostAddr>) -> Set<HostAddr>
    decreases ips.len(),
{
    if ips.len() == 0 {
        running
    } else {
        stopped(stopped_all(running, ips.drop_last()), ips.last())
    }
}

/// The commands of a stop for each of `ips`, in order.
pub open spec fn stop_all_commands(running: Set<HostAddr>, ips: Seq<HostAddr>) -> Seq<
    TaskCommand,
>
    decreases ips.len(),
{
    if ips.len() == 0 {
        Seq::empty()
    } else {
        stop_all_commands(running, ips.drop_last()) + stop_commands(
            stopped_all(running, ips.drop_last()),
            ips.last(),
        )
    }
}

/// The registry after the commands were carried out, in order.
pub open spec fn carried_out(running: Set<HostAddr>, commands: Seq<TaskCommand>) -> Set<HostAddr>
    decreases commands.len(),
{
    if commands.len() == 0 {
        running
    } else {
        let before = carried_out(running, commands.drop_last());
        match commands.last() {
            TaskCommand::Start(ip) => started(before, ip),
            TaskCommand::Stop(ip) => stopped(before, ip),
        }
    }
}

/// The hosts of the two address families as one set of addresses.
pub open spec fn by_family(v4: Set<u32>, v6: Set<u128>) -> Set<HostAddr> {
    Set::new(
        |a: HostAddr|
            match a {
                HostAddr::V4(bits) => v4.contains(bits),
                HostAddr::V6(bits) => v6.contains(bits),
            },
    )
}

/// The hosts whose probe loop runs: a hash set for each address family,
/// keyed by the bits of the address.
#[derive(Debug)]
pub struct TaskRegistry {
    v4: HashSet<u32>,
    v6: HashSet<u128>,
}

impl View for TaskRegistry {
    type V = Set<HostAddr>;

    closed spec fn view(&self) -> Set<HostAddr> {
        by_family(self.v4@, self.v6@)
    }
}

impl TaskRegistry {
    /// A registry without running hosts.
    pub fn new() -> (r: TaskRegistry)
        ensures
            r@ == Set::<HostAddr>::empty(),
    {
        let r = TaskRegistry { v4: HashSet::new(), v6: HashSet::new() };
        assert(r@ =~= Set::<HostAddr>::empty());
        r
    }

    /// Whether the probe loop of `ip` runs.
    pub fn is_running(&self, ip: HostAddr) -> (r: bool)
        ensures
            r == self@.contains(ip),
    {
        match ip {
            HostAddr::V4(bits) => self.v4.contains(&bits),
            HostAddr::V6(bits) => self.v6.contains(&bits),
        }
    }

    /// Enters `ip` and asks for its probe loop to be started, unless it
    /// runs already.
    pub fn start(&mut self, ip: HostAddr, commands: &mut Vec<TaskCommand>)
        ensures
            final(self)@ == started(old(self)@, ip),
            final(commands)@ == old(commands)@ + start_commands(old(self)@, ip),
    {
        let entered = match ip {
            HostAddr::V4(bits) => self.v4.insert(bits),
            HostAddr::V6(bits) => self.v6.insert(bits),
        };
        if entered {
            commands.push(TaskCommand::Start(ip));
        }
        assert(self@ =~= started(old(self)@, ip));
        assert(commands@ =~= old(commands)@ + start_commands(old(self)@, ip));
    }

    /// Takes `ip` out and asks for its probe loop to be stopped, if it
    /// runs.
    pub fn stop(&mut self, ip: HostAddr, commands: &mut Vec<TaskCommand>)
        ensures
            final(self)@ == stopped(old(self)@, ip),
            final(commands)@ == old(commands)@ + stop_commands(old(self)@, ip),
    {
        let left = match ip {
            HostAddr::V4(bits) => self.v4.remove(&bits),
            HostAddr::V6(bits) => self.v6.remove(&bits),
        };
        if left {
            commands.push(TaskCommand::Stop(ip));
        }
        assert(self@ =~= stopped(old(self)@, ip));
        assert(commands@ =~= old(commands)@ + stop_commands(old(self)@, ip));
    }
}

/// A stop for a host that does not run changes nothing and gives out no
/// command; so a second stop in a row does nothing.
pub proof fn lemma_stop_twice(running: Set<HostAddr>, ip: HostAddr)
    ensures
        stopped(stopped(running, ip), ip) == stopped(running, ip),
        stop_commands(stopped(running, ip), ip) == Seq::<TaskCommand>::empty(),
        !stopped(running, ip).contains(ip),
{
    assert(stopped(stopped(running, ip), ip) =~= stopped(running, ip));
}

/// A start for a host that runs already changes nothing and gives out no
/// command; so a second start in a row does nothing.
pub proof fn lemma_start_twice(running: Set<HostAddr>, ip: HostAddr)
    ensures
        started(started(running, ip), ip) == started(running, ip),
        start_commands(started(running, ip), ip) == Seq::<TaskCommand>::empty(),
        started(running, ip).contains(ip),
{
    assert(started(started(running, ip), ip) =~= started(running, ip));
}

/// A command is in two runs of commands in a row exactly if it is in one
/// of them.
proof fn lemma_contains_either(
    first: Seq<TaskCommand>,
    second: Seq<TaskCommand>,
    c: TaskCommand,
)
    ensures
        (first + second).contains(c) <==> first.contains(c) || second.contains(c),
{
    let both = first + second;
    if both.contains(c) {
        let i = both.index_of(c);
        if i < first.len() {
            assert(first[i] == c);
        } else {
            assert(second[i - first.len()] == c);
        }
    }
    if first.contains(c) {
        let i = first.index_of(c);
        assert(both[i] == c);
    }
    if second.contains(c) {
        let i = second.index_of(c);
        assert(both[first.len() + i] == c);
    }
}

/// Two runs of commands in a row hold no command twice if neither does and
/// they share none.
proof fn lemma_no_duplicates_either(first: Seq<TaskCommand>, second: Seq<TaskCommand>)
    requires
        first.no_duplicates(),
        second.no_duplicates(),
        forall|c: TaskCommand| !(first.contains(c) && second.contains(c)),
    ensures
        (first + second).no_duplicates(),
{
    let both = first + second;
    assert forall|i: int, j: int|
        0 <= i < both.len() && 0 <= j < both.len() && i != j implies both[i] != both[j] by {
        if i < first.len() {
            assert(first[i] == both[i]);
            assert(first.contains(both[i]));
        } else {
            assert(second[i - first.len()] == both[i]);
            assert(second.contains(both[i]));
        }
        if j < first.len() {
            assert(first[j] == both[j]);
            assert(first.contains(both[j]));
        } else {
            assert(second[j - first.len()] == both[j]);
            assert(second.contains(both[j]));
        }
    }
}

/// After a start for each of `ips`, exactly the hosts run that ran before
/// or are among `ips`. The commands hold one start for each host that was
/// started, none twice, and nothing else.
pub proof fn lemma_started_all(running: Set<HostAddr>, ips: Seq<HostAddr>)
    ensures
        forall|a: HostAddr| #[trigger]
            started_all(running, ips).contains(a) <==> running.contains(a) || ips.contains(a),
        start_all_commands(running, ips).no_duplicates(),
        forall|c: TaskCommand| #[trigger]
            start_all_commands(running, ips).contains(c) <==> (c matches TaskCommand::Start(a)
                && ips.contains(a) && !running.contains(a)),
    decreases ips.len(),
{
    let cmds = start_all_commands(running, ips);
    if ips.len() > 0 {
        let front = ips.drop_last();
        let ip = ips.last();
        let mid = started_all(running, front);
        let mid_cmds = start_all_commands(running, front);
        let tail = start_commands(mid, ip);
        lemma_started_all(running, front);
        assert forall|a: HostAddr| #[trigger] ips.contains(a) <==> front.contains(a) || a
            == ip by {
            lemma_contains_last(ips, a);
        }
        assert forall|c: TaskCommand| #[trigger] cmds.contains(c) <==> mid_cmds.contains(c)
            || tail.contains(c) by {
            lemma_contains_either(mid_cmds, tail, c);
        }
        assert forall|c: TaskCommand| #[trigger] tail.contains(c) <==> (c == TaskCommand::Start(ip)
            && !mid.contains(ip)) by {
            if tail.contains(c) {
                let i = tail.index_of(c);
                assert(tail[i] == c);
            }
            if !mid.contains(ip) {
                assert(tail[0] == TaskCommand::Start(ip));
            }
        }
        lemma_no_duplicates_either(mid_cmds, tail);
    }
}

/// After a stop for each of `ips`, exactly the hosts run that ran before
/// and are not among `ips`. The commands hold one stop for each host that
/// was stopped, none twice, and nothing else.
pub proof fn lemma_stopped_all(running: Set<HostAddr>, ips: Seq<HostAddr>)
    ensures
        forall|a: HostAddr| #[trigger]
            stopped_all(running, ips).contains(a) <==> running.contains(a) && !ips.contains(a),
        stop_all_commands(running, ips).no_duplicates(),
        forall|c: TaskCommand| #[trigger]
            stop_all_commands(running, ips).contains(c) <==> (c matches TaskCommand::Stop(a)
                && ips.contains(a) && running.contains(a)),
    decreases ips.len(),
{
    let cmds = stop_all_commands(running, ips);
    if ips.len() > 0 {
        let front = ips.drop_last();
        let ip = ips.last();
        let mid = stopped_all(running, front);
        let mid_cmds = stop_all_commands(running, front);
        let tail = stop_commands(mid, ip);
        lemma_stopped_all(running, front);
        assert forall|a: HostAddr| #[trigger] ips.contains(a) <==> front.contains(a) || a
            == ip by {
            lemma_contains_last(ips, a);
        }
        assert forall|c: TaskCommand| #[trigger] cmds.contains(c) <==> mid_cmds.contains(c)
            || tail.contains(c) by {
            lemma_contains_either(mid_cmds, tail, c);
        }
        assert forall|c: TaskCommand| #[trigger] tail.contains(c) <==> (c == TaskCommand::Stop(ip)
            && mid.contains(ip)) by {
            if tail.contains(c) {
                let i = tail.index_of(c);
                assert(tail[i] == c);
            }
            if mid.contains(ip) {
                assert(tail[0] == TaskCommand::Stop(ip));
            }
        }
        lemma_no_duplicates_either(mid_cmds, tail);
    }
}

/// A stop for every host that can run leaves nothing running.
pub proof fn lemma_stopped_all_is_empty(running: Set<HostAddr>, ips: Seq<HostAddr>)
    requires
        forall|a: HostAddr| running.contains(a) ==> ips.contains(a),
    ensures
        stopped_all(running, ips) == Set::<HostAddr>::empty(),
{
    lemma_stopped_all(running, ips);
    assert(stopped_all(running, ips) =~= Set::<HostAddr>::empty());
}

/// Carrying out two runs of commands one after the other is carrying out
/// the first, and then the second on what the first left.
pub proof fn lemma_carried_out_in_turn(
    running: Set<HostAddr>,
    first: Seq<TaskCommand>,
    second: Seq<TaskCommand>,
)
    ensures
        carried_out(running, first + second) == carried_out(carried_out(running, first), second),
    decreases second.len(),
{
    if second.len() > 0 {
        lemma_carried_out_in_turn(running, first, second.drop_last());
        assert((first + second).drop_last() =~= first + second.drop_last());
    } else {
        assert(first + second =~= first);
    }
}

/// The commands of a start, carried out, enter the host; those of a stop
/// take it out.
pub proof fn lemma_carried_out_one(running: Set<HostAddr>, ip: HostAddr)
    ensures
        carried_out(running, start_commands(running, ip)) == started(running, ip),
        carried_out(running, stop_commands(running, ip)) == stopped(running, ip),
{
    let start = start_commands(running, ip);
    if start.len() > 0 {
        assert(start.drop_last() =~= Seq::<TaskCommand>::empty());
        assert(carried_out(running, start.drop_last()) == running);
    } else {
        assert(started(running, ip) =~= running);
    }
    let stop = stop_commands(running, ip);
    if stop.len() > 0 {
        assert(stop.drop_last() =~= Seq::<TaskCommand>::empty());
        assert(carried_out(running, stop.drop_last()) == running);
    } else {
        assert(stopped(running, ip) =~= running);
    }
}

/// The commands of a start for each of `ips`, carried out, leave the
/// registry as those starts do.
pub proof fn lemma_carried_out_starts(running: Set<HostAddr>, ips: Seq<HostAddr>)
    ensures
        carried_out(running, start_all_commands(running, ips)) == started_all(running, ips),
    decreases ips.len(),
{
    if ips.len() > 0 {
        let front = ips.drop_last();
        lemma_carried_out_starts(running, front);
        lemma_carried_out_in_turn(
            running,
            start_all_commands(running, front),
            start_commands(started_all(running, front), ips.last()),
        );
        lemma_carried_out_one(started_all(running, front), ips.last());
    }
}

/// The commands of a stop for each of `ips`, carried out, leave the
/// registry as those stops do.
pub proof fn lemma_carried_out_stops(running: Set<HostAddr>, ips: Seq<HostAddr>)
    ensures
        carried_out(running, stop_all_commands(running, ips)) == stopped_all(running, ips),
    decreases ips.len(),
{
    if ips.len() > 0 {
        let front = ips.drop_last();
        lemma_carried_out_stops(running, front);
        lemma_carried_out_in_turn(
            running,
            stop_all_commands(running, front),
            stop_commands(stopped_all(running, front), ips.last()),
        );
        lemma_carried_out_one(stopped_all(running, front), ips.last());
    }
}

} // verus!
