//! The supervisor: the hosts of a session, which of them the user has
//! selected, and which of them have a running probe loop.
//!
//! The supervisor decides; it does not run anything. Every operation
//! returns the commands that bring the running probe loops in line with its
//! registry, for the caller to carry out in order.

use crate::addr::{distinct_addrs, HostAddr};
use crate::distinct::{first_occurrences, lemma_first_occurrences};
use crate::registry::{
    carried_out, lemma_carried_out_one, lemma_carried_out_starts, lemma_carried_out_stops,
    lemma_started_all, lemma_stopped_all, lemma_stopped_all_is_empty, start_all_commands,
    start_commands, started, started_all, stop_all_commands, stop_commands, stopped, stopped_all,
    TaskCommand, TaskRegistry,
};
use crate::stats::{AppMode, StatsModel};
use crate::store::StatsStore;
use vstd::arithmetic::div_mod::{
    lemma_add_mod_noop_right, lemma_mod_add_multiples_vanish, lemma_sub_mod_noop_right,
};
use vstd::prelude::*;

verus! {

/// A host of the session, and whether the user wants it monitored.
#[derive(Clone, Copy, Debug, PartialEq, Eq, Structural)]
pub struct Host {
    pub ip: HostAddr,
    pub selected: bool,
}

/// What the supervisor reads of a key press.
#[derive(Clone, Copy, Debug, PartialEq, Eq, Structural)]
pub enum KeyInput {
    Char(char),
    Esc,
    Up,
    Down,
    Other,
}

/// What a key press asks of the caller: the commands to carry out, and
/// whether to export the statistics.
#[derive(Debug)]
pub struct KeyEffect {
    pub commands: Vec<TaskCommand>,
    pub export: bool,
}

/// The hosts of a new session: one for each address, in order, none
/// selected.
pub open spec fn fresh_hosts(ips: Seq<HostAddr>) -> Seq<Host> {
    ips.map_values(|ip: HostAddr| Host { ip, selected: false })
}

/// The addresses of the hosts, in order.
pub open spec fn addrs_of(hosts: Seq<Host>) -> Seq<HostAddr> {
    hosts.map_values(|h: Host| h.ip)
}

/// The addresses of the hosts whose flag is `selected`, in order.
pub open spec fn addrs_where(hosts: Seq<Host>, selected: bool) -> Seq<HostAddr>
    decreases hosts.len(),
{
    if hosts.len() == 0 {
        Seq::empty()
    } else if hosts.last().selected == selected {
        addrs_where(hosts.drop_last(), selected).push(hosts.last().ip)
    } else {
        addrs_where(hosts.drop_last(), selected)
    }
}

/// The hosts with every flag set to `selected`.
pub open spec fn all_marked(hosts: Seq<Host>, selected: bool) -> Seq<Host> {
    hosts.map_values(|h: Host| Host { ip: h.ip, selected })
}

/// The addresses of the hosts that run, in the order of the hosts.
pub open spec fn addrs_running(hosts: Seq<Host>, running: Set<HostAddr>) -> Seq<HostAddr>
    decreases hosts.len(),
{
    if hosts.len() == 0 {
        Seq::empty()
    } else if running.contains(hosts.last().ip) {
        addrs_running(hosts.drop_last(), running).push(hosts.last().ip)
    } else {
        addrs_running(hosts.drop_last(), running)
    }
}

/// Whether some selected host has the address `ip`.
pub open spec fn is_selected(hosts: Seq<Host>, ip: HostAddr) -> bool {
    exists|i: int| 0 <= i < hosts.len() && hosts[i].ip == ip && hosts[i].selected
}

/// The supervisor as mathematical values.
pub struct AppModel {
    pub mode: AppMode,
    pub port: u16,
    pub hosts: Seq<Host>,
    pub selected_index: nat,
    pub should_quit: bool,
    pub paused: bool,
    /// The hosts whose probe loop runs.
    pub running: Set<HostAddr>,
}

impl AppModel {
    /// The supervisor of a new session over the hosts at `ips`: one host
    /// for each address, at the place where the address first occurs.
    pub open spec fn initial(ips: Seq<HostAddr>, mode: AppMode, port: u16) -> AppModel {
        AppModel {
            mode,
            port,
            hosts: fresh_hosts(first_occurrences(ips)),
            selected_index: 0,
            should_quit: false,
            paused: false,
            running: Set::empty(),
        }
    }

    /// What holds of the supervisor at every moment of a session: no two
    /// hosts share an address, the cursor is on a host, nothing runs while
    /// paused, and whatever runs belongs to a selected host.
    pub open spec fn wf(self) -> bool {
        &&& self.distinct()
        &&& self.hosts.len() == 0 ==> self.selected_index == 0
        &&& self.hosts.len() > 0 ==> self.selected_index < self.hosts.len()
        &&& self.paused ==> self.running == Set::<HostAddr>::empty()
        &&& forall|a: HostAddr| #[trigger] self.running.contains(a) ==> is_selected(self.hosts, a)
    }

    /// Whether no two hosts share an address.
    pub open spec fn distinct(self) -> bool {
        addrs_of(self.hosts).no_duplicates()
    }

    /// Whether every selected host runs, unless the session is paused.
    pub open spec fn in_step(self) -> bool {
        !self.paused ==> forall|i: int|
            0 <= i < self.hosts.len() && self.hosts[i].selected ==> self.running.contains(
                #[trigger] self.hosts[i].ip,
            )
    }

    /// The cursor moved by `delta` hosts, going round at both ends.
    pub open spec fn move_selection(self, delta: int) -> AppModel {
        if self.hosts.len() == 0 {
            self
        } else {
            AppModel {
                selected_index: ((self.selected_index + delta) % (self.hosts.len() as int)) as nat,
                ..self
            }
        }
    }

    /// The selection of the host under the cursor flipped. Unless the
    /// session is paused, its probe loop is started where the host is now
    /// selected, and stopped where it no longer is.
    pub open spec fn toggle_selection(self) -> (AppModel, Seq<TaskCommand>) {
        if self.hosts.len() == 0 {
            (self, Seq::empty())
        } else {
            let at = self.selected_index as int;
            let host = self.hosts[at];
            let hosts = self.hosts.update(at, Host { ip: host.ip, selected: !host.selected });
            if self.paused {
                (AppModel { hosts, ..self }, Seq::empty())
            } else if !host.selected {
                (
                    AppModel { hosts, running: started(self.running, host.ip), ..self },
                    start_commands(self.running, host.ip),
                )
            } else {
                (
                    AppModel { hosts, running: stopped(self.running, host.ip), ..self },
                    stop_commands(self.running, host.ip),
                )
            }
        }
    }

    /// Pause flipped. Pausing stops the probe loop of every host, in the
    /// order of the hosts, and leaves the selection alone; resuming starts
    /// one for every selected host.
    pub open spec fn toggle_pause(self) -> (AppModel, Seq<TaskCommand>) {
        if !self.paused {
            let ips = addrs_of(self.hosts);
            (
                AppModel { paused: true, running: stopped_all(self.running, ips), ..self },
                stop_all_commands(self.running, ips),
            )
        } else {
            let ips = addrs_where(self.hosts, true);
            (
                AppModel { paused: false, running: started_all(self.running, ips), ..self },
                start_all_commands(self.running, ips),
            )
        }
    }

    /// Every host selected. Unless the session is paused, a probe loop is
    /// started for each host that was not selected before.
    pub open spec fn select_all(self) -> (AppModel, Seq<TaskCommand>) {
        let hosts = all_marked(self.hosts, true);
        if self.paused {
            (AppModel { hosts, ..self }, Seq::empty())
        } else {
            let ips = addrs_where(self.hosts, false);
            (
                AppModel { hosts, running: started_all(self.running, ips), ..self },
                start_all_commands(self.running, ips),
            )
        }
    }

    /// No host selected, and the probe loop of every host stopped.
    pub open spec fn deselect_all(self) -> (AppModel, Seq<TaskCommand>) {
        let ips = addrs_of(self.hosts);
        (
            AppModel {
                hosts: all_marked(self.hosts, false),
                running: stopped_all(self.running, ips),
                ..self
            },
            stop_all_commands(self.running, ips),
        )
    }

    /// The probe loop of every host stopped, in the order of the hosts, at
    /// the end of the session.
    pub open spec fn shutdown(self) -> (AppModel, Seq<TaskCommand>) {
        let ips = addrs_of(self.hosts);
        (
            AppModel { running: stopped_all(self.running, ips), ..self },
            stop_all_commands(self.running, ips),
        )
    }

    /// The effect of a key press: the supervisor after it, its commands,
    /// and whether it asks for an export.
    pub open spec fn handle_key(self, key: KeyInput) -> (AppModel, Seq<TaskCommand>, bool) {
        match key {
            KeyInput::Esc => (AppModel { should_quit: true, ..self }, Seq::empty(), false),
            KeyInput::Up => (self.move_selection(-1), Seq::empty(), false),
            KeyInput::Down => (self.move_selection(1), Seq::empty(), false),
            KeyInput::Char(c) => {
                if c == 'q' {
                    (AppModel { should_quit: true, ..self }, Seq::empty(), false)
                } else if c == 'k' {
                    (self.move_selection(-1), Seq::empty(), false)
                } else if c == 'j' {
                    (self.move_selection(1), Seq::empty(), false)
                } else if c == ' ' {
                    (self.toggle_selection().0, self.toggle_selection().1, false)
                } else if c == 'p' {
                    (self.toggle_pause().0, self.toggle_pause().1, false)
                } else if c == 'a' {
                    (self.select_all().0, self.select_all().1, false)
                } else if c == 'd' {
                    (self.deselect_all().0, self.deselect_all().1, false)
                } else if c == 's' {
                    (self, Seq::empty(), true)
                } else {
                    (self, Seq::empty(), false)
                }
            },
            KeyInput::Other => (self, Seq::empty(), false),
        }
    }
}

/// The supervisor of a session.
#[derive(Debug)]
pub struct App {
    mode: AppMode,
    port: u16,
    hosts: Vec<Host>,
    selected_index: usize,
    should_quit: bool,
    paused: bool,
    tasks: TaskRegistry,
}

impl View for App {
    type V = AppModel;

    closed spec fn view(&self) -> AppModel {
        AppModel {
            mode: self.mode,
            port: self.port,
            hosts: self.hosts@,
            selected_index: self.selected_index as nat,
            should_quit: self.should_quit,
            paused: self.paused,
            running: self.tasks@,
        }
    }
}

impl App {
    /// Whether the supervisor is that of some session.
    pub closed spec fn wf(&self) -> bool {
        self@.wf()
    }

    /// A well-formed supervisor has a well-formed model.
    pub proof fn lemma_wf(&self)
        requires
            self.wf(),
        ensures
            self@.wf(),
    {
    }

    /// The supervisor of a new session over the hosts at `ips`, each
    /// address taken once, where it first occurs: nothing is selected,
    /// nothing runs, and the cursor is on the first host.
    pub fn new(ips: Vec<HostAddr>, mode: AppMode, port: u16) -> (app: App)
        ensures
            app.wf(),
            app@ == AppModel::initial(ips@, mode, port),
            app@.distinct(),
            app@.in_step(),
            addrs_of(app@.hosts) == first_occurrences(ips@),
    {
        let once = distinct_addrs(&ips);
        let mut hosts: Vec<Host> = Vec::new();
        let mut i: usize = 0;
        while i < once.len()
            invariant
                i <= once@.len(),
                hosts@ == fresh_hosts(once@.subrange(0, i as int)),
            decreases once@.len() - i,
        {
            hosts.push(Host { ip: once[i], selected: false });
            i = i + 1;
        }
        assert(once@.subrange(0, i as int) =~= once@);
        let app = App {
            mode,
            port,
            hosts,
            selected_index: 0,
            should_quit: false,
            paused: false,
            tasks: TaskRegistry::new(),
        };
        proof {
            lemma_initial_wf(ips@, mode, port);
        }
        app
    }

    /// Acts on a key press: `q` or Esc asks to quit, Up or `k` and Down or
    /// `j` move the cursor, Space flips the selection under it, `p` flips
    /// pause, `a` selects and `d` deselects every host, `s` asks for an
    /// export. Any other key does nothing.
    pub fn handle_key(&mut self, key: KeyInput) -> (effect: KeyEffect)
        requires
            old(self).wf(),
        ensures
            final(self).wf(),
            (final(self)@, effect.commands@, effect.export) == old(self)@.handle_key(key),
            old(self)@.in_step() ==> final(self)@.in_step(),
    {
        proof {
            if self@.in_step() {
                lemma_selection_and_registry_in_step(self@, key);
            }
        }
        let mut export = false;
        let mut commands: Vec<TaskCommand> = Vec::new();
        match key {
            KeyInput::Esc => {
                self.should_quit = true;
            },
            KeyInput::Up => {
                self.move_selection(-1);
            },
            KeyInput::Down => {
                self.move_selection(1);
            },
            KeyInput::Char(c) => {
                if c == 'q' {
                    self.should_quit = true;
                } else if c == 'k' {
                    self.move_selection(-1);
                } else if c == 'j' {
                    self.move_selection(1);
                } else if c == ' ' {
                    commands = self.toggle_selection();
                } else if c == 'p' {
                    commands = self.toggle_pause();
                } else if c == 'a' {
                    commands = self.select_all();
                } else if c == 'd' {
                    commands = self.deselect_all();
                } else if c == 's' {
                    export = true;
                }
            },
            KeyInput::Other => {},
        }
        KeyEffect { commands, export }
    }

    /// Moves the cursor by `delta` hosts, going round at both ends. Without
    /// hosts there is nothing to move.
    pub fn move_selection(&mut self, delta: isize)
        requires
            old(self).wf(),
        ensures
            final(self).wf(),
            final(self)@ == old(self)@.move_selection(delta as int),
            old(self)@.in_step() ==> final(self)@.in_step(),
    {
        proof {
            lemma_move_selection_wf(self@, delta as int);
        }
        if self.hosts.len() == 0 {
            return ;
        }
        let len: u128 = self.hosts.len() as u128;
        let at: u128 = self.selected_index as u128;
        let next: u128 = if delta >= 0 {
            let step: u128 = (delta as u128) % len;
            proof {
                lemma_add_mod_noop_right(at as int, delta as int, len as int);
            }
            (at + step) % len
        } else {
            let back: u128 = ((-(delta as i128)) as u128) % len;
            proof {
                lemma_sub_mod_noop_right(at as int, -(delta as int), len as int);
                lemma_mod_add_multiples_vanish(at - back, len as int);
            }
            (at + len - back) % len
        };
        self.selected_index = next as usize;
    }

    /// Flips the selection of the host under the cursor. Unless the
    /// session is paused, the host's probe loop is started where the host
    /// is now selected, and stopped where it no longer is.
    pub fn toggle_selection(&mut self) -> (commands: Vec<TaskCommand>)
        requires
            old(self).wf(),
        ensures
            final(self).wf(),
            (final(self)@, commands@) == old(self)@.toggle_selection(),
            old(self)@.in_step() ==> final(self)@.in_step(),
    {
        proof {
            if self@.in_step() {
                lemma_selection_and_registry_in_step(self@, KeyInput::Char(' '));
            }
            lemma_toggle_selection_wf(self@);
        }
        let mut commands: Vec<TaskCommand> = Vec::new();
        if self.hosts.len() == 0 {
            return commands;
        }
        let host = self.hosts[self.selected_index];
        self.hosts[self.selected_index] = Host { ip: host.ip, selected: !host.selected };
        if !self.paused {
            if !host.selected {
                self.start_task(host.ip, &mut commands);
            } else {
                self.stop_task(host.ip, &mut commands);
            }
        }
        commands
    }

    /// Flips pause. Pausing stops every probe loop and leaves the
    /// selection alone; resuming starts one for every selected host.
    pub fn toggle_pause(&mut self) -> (commands: Vec<TaskCommand>)
        requires
            old(self).wf(),
        ensures
            final(self).wf(),
            (final(self)@, commands@) == old(self)@.toggle_pause(),
            old(self)@.in_step() ==> final(self)@.in_step(),
    {
        proof {
            if self@.in_step() {
                lemma_selection_and_registry_in_step(self@, KeyInput::Char('p'));
            }
            lemma_toggle_pause_wf(self@);
        }
        let mut commands: Vec<TaskCommand> = Vec::new();
        self.paused = !self.paused;
        if self.paused {
            self.stop_all(&mut commands);
        } else {
            let selected_ips = self.addrs_with(true);
            let mut i: usize = 0;
            while i < selected_ips.len()
                invariant
                    i <= selected_ips@.len(),
                    self.tasks@ == started_all(old(self)@.running, selected_ips@.subrange(0, i as int)),
                    commands@ == start_all_commands(
                        old(self)@.running,
                        selected_ips@.subrange(0, i as int),
                    ),
                    self.hosts == old(self).hosts,
                    self.mode == old(self).mode,
                    self.port == old(self).port,
                    self.selected_index == old(self).selected_index,
                    self.should_quit == old(self).should_quit,
                    self.paused == !old(self).paused,
                decreases selected_ips@.len() - i,
            {
                proof {
                    let upto = selected_ips@.subrange(0, i + 1);
                    assert(upto.drop_last() =~= selected_ips@.subrange(0, i as int));
                }
                self.start_task(selected_ips[i], &mut commands);
                i = i + 1;
            }
            assert(selected_ips@.subrange(0, i as int) =~= selected_ips@);
        }
        commands
    }

    /// Starts the probe loop of `ip`, unless it runs already.
    fn start_task(&mut self, ip: HostAddr, commands: &mut Vec<TaskCommand>)
        ensures
            final(self)@ == (AppModel { running: started(old(self)@.running, ip), ..old(self)@ }),
            final(self).hosts == old(self).hosts,
            final(commands)@ == old(commands)@ + start_commands(old(self)@.running, ip),
    {
        self.tasks.start(ip, commands);
    }

    /// Stops the probe loop of `ip`, if it runs.
    fn stop_task(&mut self, ip: HostAddr, commands: &mut Vec<TaskCommand>)
        ensures
            final(self)@ == (AppModel { running: stopped(old(self)@.running, ip), ..old(self)@ }),
            final(self).hosts == old(self).hosts,
            final(commands)@ == old(commands)@ + stop_commands(old(self)@.running, ip),
    {
        self.tasks.stop(ip, commands);
    }

    /// The addresses of the hosts whose flag is `selected`, in order.
    fn addrs_with(&self, selected: bool) -> (ips: Vec<HostAddr>)
        ensures
            ips@ == addrs_where(self@.hosts, selected),
    {
        let mut ips: Vec<HostAddr> = Vec::new();
        let mut i: usize = 0;
        while i < self.hosts.len()
            invariant
                i <= self.hosts@.len(),
                ips@ == addrs_where(self.hosts@.subrange(0, i as int), selected),
            decreases self.hosts@.len() - i,
        {
            proof {
                let upto = self.hosts@.subrange(0, i + 1);
                assert(upto.drop_last() =~= self.hosts@.subrange(0, i as int));
            }
            if self.hosts[i].selected == selected {
                ips.push(self.hosts[i].ip);
            }
            i = i + 1;
        }
        assert(self.hosts@.subrange(0, i as int) =~= self.hosts@);
        ips
    }

    /// Stops the probe loop of every host, in the order of the hosts.
    fn stop_all(&mut self, commands: &mut Vec<TaskCommand>)
        ensures
            final(self)@ == (AppModel {
                running: stopped_all(old(self)@.running, addrs_of(old(self)@.hosts)),
                ..old(self)@
            }),
            final(self).hosts == old(self).hosts,
            final(commands)@ == old(commands)@ + stop_all_commands(
                old(self)@.running,
                addrs_of(old(self)@.hosts),
            ),
    {
        let mut i: usize = 0;
        assert(commands@ =~= old(commands)@ + stop_all_commands(
            old(self)@.running,
            addrs_of(old(self)@.hosts.subrange(0, 0)),
        ));
        while i < self.hosts.len()
            invariant
                i <= self.hosts@.len(),
                self.tasks@ == stopped_all(
                    old(self)@.running,
                    addrs_of(old(self)@.hosts.subrange(0, i as int)),
                ),
                commands@ == old(commands)@ + stop_all_commands(
                    old(self)@.running,
                    addrs_of(old(self)@.hosts.subrange(0, i as int)),
                ),
                self.hosts == old(self).hosts,
                self.mode == old(self).mode,
                self.port == old(self).port,
                self.selected_index == old(self).selected_index,
                self.should_quit == old(self).should_quit,
                self.paused == old(self).paused,
            decreases self.hosts@.len() - i,
        {
            proof {
                let upto = addrs_of(self.hosts@.subrange(0, i + 1));
                assert(upto.drop_last() =~= addrs_of(self.hosts@.subrange(0, i as int)));
            }
            let ghost before = commands@;
            let ip = self.hosts[i].ip;
            self.stop_task(ip, commands);
            assert(commands@ =~= old(commands)@ + stop_all_commands(
                old(self)@.running,
                addrs_of(old(self)@.hosts.subrange(0, i + 1)),
            ));
            i = i + 1;
        }
        assert(self.hosts@.subrange(0, i as int) =~= self.hosts@);
    }

    /// Sets the flag of every host to `selected`.
    fn mark_all(&mut self, selected: bool)
        ensures
            final(self)@ == (AppModel { hosts: all_marked(old(self)@.hosts, selected), ..old(self)@ }),
            final(self).tasks == old(self).tasks,
    {
        let mut i: usize = 0;
        while i < self.hosts.len()
            invariant
                i <= self.hosts@.len(),
                self.hosts@.len() == old(self).hosts@.len(),
                forall|k: int|
                    0 <= k < i ==> self.hosts@[k] == (Host {
                        ip: old(self).hosts@[k].ip,
                        selected,
                    }),
                forall|k: int| i <= k < self.hosts@.len() ==> self.hosts@[k] == old(self).hosts@[k],
                self.tasks == old(self).tasks,
                self.mode == old(self).mode,
                self.port == old(self).port,
                self.selected_index == old(self).selected_index,
                self.should_quit == old(self).should_quit,
                self.paused == old(self).paused,
            decreases self.hosts@.len() - i,
        {
            let ip = self.hosts[i].ip;
            self.hosts[i] = Host { ip, selected };
            i = i + 1;
        }
        assert(self.hosts@ =~= all_marked(old(self)@.hosts, selected));
    }

    /// Selects every host. Unless the session is paused, a probe loop is
    /// started for each host that was not selected before.
    pub fn select_all(&mut self) -> (commands: Vec<TaskCommand>)
        requires
            old(self).wf(),
        ensures
            final(self).wf(),
            (final(self)@, commands@) == old(self)@.select_all(),
            old(self)@.in_step() ==> final(self)@.in_step(),
    {
        proof {
            if self@.in_step() {
                lemma_selection_and_registry_in_step(self@, KeyInput::Char('a'));
            }
            lemma_select_all_wf(self@);
        }
        let mut commands: Vec<TaskCommand> = Vec::new();
        let newly = self.addrs_with(false);
        self.mark_all(true);
        if !self.paused {
            let mut i: usize = 0;
            while i < newly.len()
                invariant
                    i <= newly@.len(),
                    self.tasks@ == started_all(old(self)@.running, newly@.subrange(0, i as int)),
                    commands@ == start_all_commands(
                        old(self)@.running,
                        newly@.subrange(0, i as int),
                    ),
                    self.hosts@ == all_marked(old(self)@.hosts, true),
                    self.mode == old(self).mode,
                    self.port == old(self).port,
                    self.selected_index == old(self).selected_index,
                    self.should_quit == old(self).should_quit,
                    self.paused == old(self).paused,
                decreases newly@.len() - i,
            {
                proof {
                    let upto = newly@.subrange(0, i + 1);
                    assert(upto.drop_last() =~= newly@.subrange(0, i as int));
                }
                self.start_task(newly[i], &mut commands);
                i = i + 1;
            }
            assert(newly@.subrange(0, i as int) =~= newly@);
        }
        commands
    }

    /// Deselects every host and stops the probe loop of each, paused or
    /// not.
    pub fn deselect_all(&mut self) -> (commands: Vec<TaskCommand>)
        requires
            old(self).wf(),
        ensures
            final(self).wf(),
            (final(self)@, commands@) == old(self)@.deselect_all(),
            old(self)@.in_step() ==> final(self)@.in_step(),
    {
        proof {
            if self@.in_step() {
                lemma_selection_and_registry_in_step(self@, KeyInput::Char('d'));
            }
            lemma_deselect_all_wf(self@);
        }
        let mut commands: Vec<TaskCommand> = Vec::new();
        self.stop_all(&mut commands);
        self.mark_all(false);
        commands
    }

    /// The store of a new session over the hosts of the supervisor: an
    /// entry for each host address, with the statistics of a host that no
    /// probe was sent to, of the kind of the session.
    pub fn initial_stats(&self) -> (store: StatsStore)
        ensures
            store.wf(),
            forall|a: HostAddr| #[trigger]
                store@.contains_key(a) <==> addrs_of(self@.hosts).contains(a),
            forall|a: HostAddr| #[trigger]
                store@.contains_key(a) ==> store@[a] == StatsModel::initial(self@.mode),
    {
        StatsStore::new(&self.hosts, self.mode)
    }

    /// The kind of probe the session sends.
    pub fn mode(&self) -> (r: AppMode)
        ensures
            r == self@.mode,
    {
        self.mode
    }

    /// The port that HTTP probes go to.
    pub fn port(&self) -> (r: u16)
        ensures
            r == self@.port,
    {
        self.port
    }

    /// The hosts of the session, in order.
    pub fn hosts(&self) -> (r: &Vec<Host>)
        ensures
            r@ == self@.hosts,
    {
        &self.hosts
    }

    /// The position of the cursor among the hosts.
    pub fn selected_index(&self) -> (r: usize)
        ensures
            r == self@.selected_index,
    {
        self.selected_index
    }

    /// Whether the user asked to quit.
    pub fn should_quit(&self) -> (r: bool)
        ensures
            r == self@.should_quit,
    {
        self.should_quit
    }

    /// Whether the session is paused.
    pub fn paused(&self) -> (r: bool)
        ensures
            r == self@.paused,
    {
        self.paused
    }

    /// Whether the probe loop of `ip` runs.
    pub fn is_running(&self, ip: HostAddr) -> (r: bool)
        ensures
            r == self@.running.contains(ip),
    {
        self.tasks.is_running(ip)
    }

    /// How many hosts have a running probe loop.
    pub fn running_count(&self) -> (n: usize)
        ensures
            n == addrs_running(self@.hosts, self@.running).len(),
    {
        let mut n: usize = 0;
        let mut i: usize = 0;
        while i < self.hosts.len()
            invariant
                i <= self.hosts@.len(),
                n <= i,
                n == addrs_running(self.hosts@.subrange(0, i as int), self.tasks@).len(),
            decreases self.hosts@.len() - i,
        {
            proof {
                let upto = self.hosts@.subrange(0, i + 1);
                assert(upto.drop_last() =~= self.hosts@.subrange(0, i as int));
            }
            if self.tasks.is_running(self.hosts[i].ip) {
                n = n + 1;
            }
            i = i + 1;
        }
        assert(self.hosts@.subrange(0, i as int) =~= self.hosts@);
        n
    }

    /// How many hosts are selected.
    pub fn selected_count(&self) -> (n: usize)
        ensures
            n == addrs_where(self@.hosts, true).len(),
    {
        self.addrs_with(true).len()
    }

    /// Stops the probe loop of every host, at the end of the session.
    /// Nothing runs afterwards.
    pub fn shutdown(&mut self) -> (commands: Vec<TaskCommand>)
        requires
            old(self).wf(),
        ensures
            final(self).wf(),
            (final(self)@, commands@) == old(self)@.shutdown(),
            final(self)@.running == Set::<HostAddr>::empty(),
    {
        proof {
            lemma_shutdown(self@);
        }
        let mut commands: Vec<TaskCommand> = Vec::new();
        self.stop_all(&mut commands);
        commands
    }
}

/// An address is among those of the hosts with a given flag exactly if a
/// host with that flag has it.
pub proof fn lemma_addrs_where(hosts: Seq<Host>, selected: bool)
    ensures
        forall|a: HostAddr| #[trigger]
            addrs_where(hosts, selected).contains(a) <==> exists|i: int|
                0 <= i < hosts.len() && hosts[i].ip == a && hosts[i].selected == selected,
    decreases hosts.len(),
{
    let ips = addrs_where(hosts, selected);
    if hosts.len() > 0 {
        let front = hosts.drop_last();
        let front_ips = addrs_where(front, selected);
        let last = hosts.last();
        lemma_addrs_where(front, selected);
        assert forall|a: HostAddr| #[trigger]
            ips.contains(a) <==> exists|i: int|
                0 <= i < hosts.len() && hosts[i].ip == a && hosts[i].selected == selected by {
            if ips.contains(a) {
                let k = ips.index_of(a);
                if k < front_ips.len() {
                    assert(front_ips[k] == a);
                    assert(front_ips.contains(a));
                    let i = choose|i: int|
                        0 <= i < front.len() && front[i].ip == a && front[i].selected == selected;
                    assert(hosts[i] == front[i]);
                } else {
                    assert(hosts[hosts.len() - 1] == last);
                }
            }
            if exists|i: int|
                0 <= i < hosts.len() && hosts[i].ip == a && hosts[i].selected == selected {
                let i = choose|i: int|
                    0 <= i < hosts.len() && hosts[i].ip == a && hosts[i].selected == selected;
                if i < front.len() {
                    assert(front[i] == hosts[i]);
                    assert(front_ips.contains(a));
                    let k = front_ips.index_of(a);
                    assert(ips[k] == a);
                } else {
                    assert(ips[ips.len() - 1] == a);
                }
            }
        }
    }
}

/// The supervisor of a new session is well formed, with nothing selected
/// and nothing running. Its hosts are the addresses given, each once, in
/// the order in which they first occur; addresses that are distinct already
/// are its hosts as they stand.
pub proof fn lemma_initial_wf(ips: Seq<HostAddr>, mode: AppMode, port: u16)
    ensures
        AppModel::initial(ips, mode, port).wf(),
        AppModel::initial(ips, mode, port).distinct(),
        AppModel::initial(ips, mode, port).in_step(),
        addrs_of(AppModel::initial(ips, mode, port).hosts) == first_occurrences(ips),
        forall|a: HostAddr|
            addrs_of(AppModel::initial(ips, mode, port).hosts).contains(a) <==> ips.contains(a),
        ips.no_duplicates() ==> AppModel::initial(ips, mode, port).hosts == fresh_hosts(ips),
{
    lemma_first_occurrences(ips);
    assert(addrs_of(fresh_hosts(first_occurrences(ips))) =~= first_occurrences(ips));
}

/// Whatever runs is the address of a host.
pub proof fn lemma_running_are_hosts(m: AppModel)
    requires
        m.wf(),
    ensures
        forall|a: HostAddr| m.running.contains(a) ==> addrs_of(m.hosts).contains(a),
        stopped_all(m.running, addrs_of(m.hosts)) == Set::<HostAddr>::empty(),
{
    assert forall|a: HostAddr| m.running.contains(a) implies addrs_of(m.hosts).contains(a) by {
        assert(is_selected(m.hosts, a));
        let i = choose|i: int| 0 <= i < m.hosts.len() && m.hosts[i].ip == a && m.hosts[i].selected;
        assert(addrs_of(m.hosts)[i] == a);
    }
    lemma_stopped_all_is_empty(m.running, addrs_of(m.hosts));
}

/// Moving the cursor keeps the supervisor well formed.
pub proof fn lemma_move_selection_wf(m: AppModel, delta: int)
    requires
        m.wf(),
    ensures
        m.move_selection(delta).wf(),
{
}

/// Flipping a selection keeps the supervisor well formed.
pub proof fn lemma_toggle_selection_wf(m: AppModel)
    requires
        m.wf(),
    ensures
        m.toggle_selection().0.wf(),
{
    if m.hosts.len() > 0 {
        let at = m.selected_index as int;
        let host = m.hosts[at];
        let after = m.toggle_selection().0;
        assert(addrs_of(after.hosts) =~= addrs_of(m.hosts));
        assert forall|a: HostAddr| #[trigger] after.running.contains(a) implies is_selected(
            after.hosts,
            a,
        ) by {
            if !m.paused && !host.selected && a == host.ip {
                assert(after.hosts[at].ip == a && after.hosts[at].selected);
            } else {
                assert(m.running.contains(a));
                let i = choose|i: int|
                    0 <= i < m.hosts.len() && m.hosts[i].ip == a && m.hosts[i].selected;
                assert(i != at);
                assert(after.hosts[i] == m.hosts[i]);
            }
        }
    }
}

/// Flipping pause keeps the supervisor well formed.
pub proof fn lemma_toggle_pause_wf(m: AppModel)
    requires
        m.wf(),
    ensures
        m.toggle_pause().0.wf(),
{
    if m.paused {
        let ips = addrs_where(m.hosts, true);
        lemma_started_all(m.running, ips);
        lemma_addrs_where(m.hosts, true);
    } else {
        lemma_running_are_hosts(m);
    }
}

/// Selecting every host keeps the supervisor well formed.
pub proof fn lemma_select_all_wf(m: AppModel)
    requires
        m.wf(),
    ensures
        m.select_all().0.wf(),
{
    let after = m.select_all().0;
    assert(addrs_of(after.hosts) =~= addrs_of(m.hosts));
    let ips = addrs_where(m.hosts, false);
    lemma_started_all(m.running, ips);
    lemma_addrs_where(m.hosts, false);
    assert forall|a: HostAddr| #[trigger] after.running.contains(a) implies is_selected(
        after.hosts,
        a,
    ) by {
        if m.running.contains(a) {
            let i = choose|i: int|
                0 <= i < m.hosts.len() && m.hosts[i].ip == a && m.hosts[i].selected;
            assert(after.hosts[i].ip == a && after.hosts[i].selected);
        } else {
            assert(ips.contains(a));
            let i = choose|i: int|
                0 <= i < m.hosts.len() && m.hosts[i].ip == a && m.hosts[i].selected == false;
            assert(after.hosts[i].ip == a && after.hosts[i].selected);
        }
    }
}

/// Deselecting every host keeps the supervisor well formed, and leaves
/// nothing running.
pub proof fn lemma_deselect_all_wf(m: AppModel)
    requires
        m.wf(),
    ensures
        m.deselect_all().0.wf(),
        m.deselect_all().0.running == Set::<HostAddr>::empty(),
{
    let after = m.deselect_all().0;
    assert(addrs_of(after.hosts) =~= addrs_of(m.hosts));
    lemma_running_are_hosts(m);
}

/// Shutting down keeps the supervisor well formed and leaves nothing
/// running, whatever was selected. Its commands hold one stop for each host
/// that ran, none twice, and nothing else; a second shutdown gives out no
/// command.
pub proof fn lemma_shutdown(m: AppModel)
    requires
        m.wf(),
    ensures
        m.shutdown().0.wf(),
        m.shutdown().0.running == Set::<HostAddr>::empty(),
        m.shutdown().1.no_duplicates(),
        forall|c: TaskCommand| #[trigger]
            m.shutdown().1.contains(c) <==> (c matches TaskCommand::Stop(a) && m.running.contains(
                a,
            )),
        m.shutdown().0.shutdown().1.len() == 0,
{
    let ips = addrs_of(m.hosts);
    let after = m.shutdown().0;
    lemma_running_are_hosts(m);
    lemma_stopped_all(m.running, ips);
    lemma_stopped_all(after.running, ips);
    let again = after.shutdown().1;
    if again.len() > 0 {
        assert(again.contains(again[0]));
    }
}

/// A key press keeps the supervisor well formed.
pub proof fn lemma_handle_key_wf(m: AppModel, key: KeyInput)
    requires
        m.wf(),
    ensures
        m.handle_key(key).0.wf(),
{
    lemma_move_selection_wf(m, -1);
    lemma_move_selection_wf(m, 1);
    lemma_toggle_selection_wf(m);
    lemma_toggle_pause_wf(m);
    lemma_select_all_wf(m);
    lemma_deselect_all_wf(m);
}

/// Flipping a selection while the session is paused starts and stops
/// nothing; resuming afterwards gives out one start for the host if it is
/// now selected, and none if it is not, no command twice, and the host then
/// runs exactly if it is selected.
pub proof fn lemma_toggle_while_paused_then_resume(m: AppModel)
    requires
        m.wf(),
        m.paused,
        m.hosts.len() > 0,
    ensures
        ({
            let at = m.selected_index as int;
            let ip = m.hosts[at].ip;
            let (toggled, on_toggle) = m.toggle_selection();
            let (resumed, on_resume) = toggled.toggle_pause();
            &&& on_toggle.len() == 0
            &&& toggled.running == Set::<HostAddr>::empty()
            &&& toggled.hosts[at].selected == !m.hosts[at].selected
            &&& toggled.hosts[at].selected ==> is_selected(toggled.hosts, ip)
            &&& on_resume.contains(TaskCommand::Start(ip)) <==> is_selected(toggled.hosts, ip)
            &&& on_resume.no_duplicates()
            &&& resumed.running.contains(ip) <==> is_selected(toggled.hosts, ip)
        }),
{
    let at = m.selected_index as int;
    let ip = m.hosts[at].ip;
    let toggled = m.toggle_selection().0;
    let ips = addrs_where(toggled.hosts, true);
    lemma_toggle_selection_wf(m);
    lemma_addrs_where(toggled.hosts, true);
    lemma_started_all(toggled.running, ips);
    assert(toggled.hosts[at].ip == ip);
    assert(ips.contains(ip) <==> is_selected(toggled.hosts, ip));
}

/// Stopping hosts that were stopped just before does nothing: deselecting
/// every host twice in a row gives out no command the second time, and a
/// flip of a selection after a deselection of every host gives out no stop;
/// nothing is left running that no selected host accounts for.
pub proof fn lemma_deselect_all_twice(m: AppModel)
    requires
        m.wf(),
    ensures
        ({
            let (once, _) = m.deselect_all();
            let (twice, again) = once.deselect_all();
            let (flipped, stray) = once.toggle_selection();
            &&& again.len() == 0
            &&& twice.running == Set::<HostAddr>::empty()
            &&& twice.wf()
            &&& forall|k: int| 0 <= k < stray.len() ==> #[trigger] stray[k] is Start
            &&& flipped.wf()
        }),
{
    lemma_deselect_all_wf(m);
    let once = m.deselect_all().0;
    lemma_deselect_all_wf(once);
    lemma_toggle_selection_wf(once);
    let ips = addrs_of(once.hosts);
    lemma_stopped_all(once.running, ips);
    let again = once.deselect_all().1;
    if again.len() > 0 {
        assert(again.contains(again[0]));
    }
}

/// The probe loops keep in step with the selection: every key press keeps
/// them so, and in a session that is not paused a host then runs exactly if
/// it is selected.
pub proof fn lemma_selection_and_registry_in_step(m: AppModel, key: KeyInput)
    requires
        m.wf(),
        m.in_step(),
    ensures
        m.handle_key(key).0.in_step(),
        !m.paused ==> forall|a: HostAddr| #[trigger]
            m.running.contains(a) <==> is_selected(m.hosts, a),
{
    let after = m.handle_key(key).0;
    assert(addrs_of(after.hosts) =~= addrs_of(m.hosts));
    assert forall|a: HostAddr| !m.paused implies (#[trigger] m.running.contains(a)
        <==> is_selected(m.hosts, a)) by {
        if is_selected(m.hosts, a) {
            let i = choose|i: int|
                0 <= i < m.hosts.len() && m.hosts[i].ip == a && m.hosts[i].selected;
            assert(m.running.contains(m.hosts[i].ip));
        }
    }
    if !after.paused {
        let at = m.selected_index as int;
        lemma_started_all(m.running, addrs_where(m.hosts, true));
        lemma_started_all(m.running, addrs_where(m.hosts, false));
        lemma_addrs_where(m.hosts, true);
        lemma_addrs_where(m.hosts, false);
        assert forall|i: int|
            0 <= i < after.hosts.len() && after.hosts[i].selected implies after.running.contains(
            #[trigger] after.hosts[i].ip,
        ) by {
            let a = after.hosts[i].ip;
            assert(m.hosts[i].ip == a);
            if m.paused {
                assert(m.hosts[i].selected);
                assert(addrs_where(m.hosts, true).contains(a));
            } else if m.hosts[i].selected {
                assert(m.running.contains(m.hosts[i].ip));
                if i != at {
                    assert(addrs_of(m.hosts)[i] == a);
                    assert(addrs_of(m.hosts)[at] == m.hosts[at].ip);
                    assert(m.hosts[at].ip != a);
                }
            } else {
                assert(addrs_where(m.hosts, false).contains(a));
            }
        }
    }
}

/// Whoever carries out the commands of a key press, in order, runs a probe
/// loop for exactly the hosts of the registry after it: no loop is left
/// behind, and none is missing.
pub proof fn lemma_commands_match_registry(m: AppModel, key: KeyInput)
    requires
        m.wf(),
    ensures
        carried_out(m.running, m.handle_key(key).1) == m.handle_key(key).0.running,
        carried_out(m.running, m.shutdown().1) == m.shutdown().0.running,
{
    lemma_carried_out_starts(m.running, addrs_where(m.hosts, true));
    lemma_carried_out_starts(m.running, addrs_where(m.hosts, false));
    lemma_carried_out_stops(m.running, addrs_of(m.hosts));
    if m.hosts.len() > 0 {
        lemma_carried_out_one(m.running, m.hosts[m.selected_index as int].ip);
    }
}

} // verus!
