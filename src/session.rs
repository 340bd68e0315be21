use vstd::prelude::*;

use crate::list::{Vm, VmView};
use crate::text::{chars_of, eq_str, string_from, trim, trim_chars};

verus! {

/// A lifecycle action that waits for the operator's confirmation.
#[derive(Clone, Copy, Debug, PartialEq, Eq, Structural)]
pub enum Action {
    Start,
    Shutdown,
}

/// A key as the interaction reads it.
#[derive(Clone, Copy, Debug, PartialEq, Eq, Structural)]
pub enum Key {
    Char(char),
    Up,
    Down,
    Enter,
    Esc,
    Backspace,
    Other,
}

/// What the interaction reacts to: a key press, or the refresh interval
/// passing with no input.
#[derive(Clone, Copy, Debug, PartialEq, Eq, Structural)]
pub enum Event {
    Key(Key),
    Tick,
}

/// How input is read at the moment.
pub enum Mode {
    /// Browsing the list.
    Normal,
    /// Typing the user name for a remote shell to `ip`.
    SshInput { vm_name: String, ip: String },
    /// Waiting for yes or no on an action.
    Confirm { vm_name: String, action: Action },
}

pub enum ModeView {
    Normal,
    SshInput(Seq<char>, Seq<char>),
    Confirm(Seq<char>, Action),
}

impl View for Mode {
    type V = ModeView;

    open spec fn view(&self) -> ModeView {
        match self {
            Mode::Normal => ModeView::Normal,
            Mode::SshInput { vm_name, ip } => ModeView::SshInput(vm_name@, ip@),
            Mode::Confirm { vm_name, action } => ModeView::Confirm(vm_name@, *action),
        }
    }
}

/// The outside work that an event asks for. After `Console`, `Ssh` and
/// `Lifecycle` the caller redraws; after `Lifecycle` and `Refresh` it lists
/// the machines again and hands them to `apply_inventory`; after
/// `ResolveAddresses` it hands the addresses found to `addresses_resolved`.
pub enum Effect {
    Nothing,
    Quit,
    /// Open the console of the named machine.
    Console(String),
    /// Look up the addresses of the named machine.
    ResolveAddresses(String),
    /// Run the action on the named machine.
    Lifecycle(Action, String),
    /// List the machines again.
    Refresh,
    /// Open a remote shell: machine name and `user@address`.
    Ssh(String, String),
}

pub enum EffectView {
    Nothing,
    Quit,
    Console(Seq<char>),
    ResolveAddresses(Seq<char>),
    Lifecycle(Action, Seq<char>),
    Refresh,
    Ssh(Seq<char>, Seq<char>),
}

impl View for Effect {
    type V = EffectView;

    open spec fn view(&self) -> EffectView {
        match self {
            Effect::Nothing => EffectView::Nothing,
            Effect::Quit => EffectView::Quit,
            Effect::Console(n) => EffectView::Console(n@),
            Effect::ResolveAddresses(n) => EffectView::ResolveAddresses(n@),
            Effect::Lifecycle(a, n) => EffectView::Lifecycle(*a, n@),
            Effect::Refresh => EffectView::Refresh,
            Effect::Ssh(n, d) => EffectView::Ssh(n@, d@),
        }
    }
}

/// The whole state of an interactive session.
pub struct App {
    pub vms: Vec<Vm>,
    /// The index of the selected record; `None` only when there are none.
    pub selected: Option<usize>,
    pub mode: Mode,
    /// The text typed so far while in `Mode::SshInput`.
    pub input: Vec<char>,
    pub show_all: bool,
    /// The name of a machine and its detail text.
    pub info_cache: Option<(String, String)>,
}

pub struct AppView {
    pub vms: Seq<VmView>,
    pub selected: Option<usize>,
    pub mode: ModeView,
    pub input: Seq<char>,
    pub show_all: bool,
    pub info_cache: Option<(Seq<char>, Seq<char>)>,
}

impl View for App {
    type V = AppView;

    open spec fn view(&self) -> AppView {
        AppView {
            vms: self.vms@.map_values(|v: Vm| v@),
            selected: self.selected,
            mode: self.mode@,
            input: self.input@,
            show_all: self.show_all,
            info_cache: match self.info_cache {
                Some((n, t)) => Some((n@, t@)),
                None => None,
            },
        }
    }
}

/// The selection fits the records: an index into them, or `None` when
/// there are none.
pub open spec fn selection_fits(sel: Option<usize>, n: nat) -> bool {
    match sel {
        Some(i) => i < n,
        None => n == 0,
    }
}

/// The selection after moving down: past the last record it wraps to the
/// first; with no records it stays.
pub open spec fn next_index(sel: Option<usize>, n: nat) -> Option<usize> {
    if n == 0 {
        sel
    } else {
        match sel {
            Some(i) => if i >= n - 1 {
                Some(0usize)
            } else {
                Some((i + 1) as usize)
            },
            None => Some(0usize),
        }
    }
}

/// The selection after moving up: before the first record it wraps to the
/// last; with no records it stays.
pub open spec fn previous_index(sel: Option<usize>, n: nat) -> Option<usize> {
    if n == 0 {
        sel
    } else {
        match sel {
            Some(i) => if i == 0 {
                Some((n - 1) as usize)
            } else {
                Some((i - 1) as usize)
            },
            None => Some(0usize),
        }
    }
}

/// The selection kept across a new listing of `n` records: the same index
/// when it still exists, the last record when the list got shorter, the
/// first when nothing was selected, nothing when there are no records.
pub open spec fn clamped_index(sel: Option<usize>, n: nat) -> Option<usize> {
    if n == 0 {
        None
    } else {
        match sel {
            Some(i) => if i < n {
                Some(i)
            } else {
                Some((n - 1) as usize)
            },
            None => Some(0usize),
        }
    }
}

impl AppView {
    pub open spec fn selected_vm(self) -> Option<VmView> {
        match self.selected {
            Some(i) => if i < self.vms.len() {
                Some(self.vms[i as int])
            } else {
                None
            },
            None => None,
        }
    }

    /// A record is selected and its state is `state`.
    pub open spec fn selected_in(self, state: Seq<char>) -> bool {
        self.selected_vm() is Some && self.selected_vm()->0.state == state
    }
}

pub open spec fn no_effect(a: AppView) -> (AppView, EffectView) {
    (a, EffectView::Nothing)
}

/// A key read while browsing.
pub open spec fn normal_key(a: AppView, k: Key) -> (AppView, EffectView) {
    if k == Key::Char('q') || k == Key::Esc {
        (a, EffectView::Quit)
    } else if k == Key::Down || k == Key::Char('j') {
        no_effect(AppView { selected: next_index(a.selected, a.vms.len()), ..a })
    } else if k == Key::Up || k == Key::Char('k') {
        no_effect(AppView { selected: previous_index(a.selected, a.vms.len()), ..a })
    } else if k == Key::Enter {
        if a.selected_in("running"@) {
            (a, EffectView::Console(a.selected_vm()->0.name))
        } else {
            no_effect(a)
        }
    } else if k == Key::Char('s') {
        if a.selected_in("running"@) {
            (a, EffectView::ResolveAddresses(a.selected_vm()->0.name))
        } else {
            no_effect(a)
        }
    } else if k == Key::Char('u') {
        if a.selected_in("shut off"@) {
            no_effect(
                AppView { mode: ModeView::Confirm(a.selected_vm()->0.name, Action::Start), ..a },
            )
        } else {
            no_effect(a)
        }
    } else if k == Key::Char('A') {
        (AppView { show_all: !a.show_all, ..a }, EffectView::Refresh)
    } else if k == Key::Char('d') {
        if a.selected_in("running"@) {
            no_effect(
                AppView {
                    mode: ModeView::Confirm(a.selected_vm()->0.name, Action::Shutdown),
                    ..a
                },
            )
        } else {
            no_effect(a)
        }
    } else {
        no_effect(a)
    }
}

/// A key read while an action waits for confirmation.
pub open spec fn confirm_key(a: AppView, name: Seq<char>, action: Action, k: Key) -> (
    AppView,
    EffectView,
) {
    if k == Key::Char('y') {
        (AppView { mode: ModeView::Normal, ..a }, EffectView::Lifecycle(action, name))
    } else if k == Key::Char('n') || k == Key::Esc {
        no_effect(AppView { mode: ModeView::Normal, ..a })
    } else {
        no_effect(a)
    }
}

/// A key read while a user name is typed.
pub open spec fn ssh_key(a: AppView, name: Seq<char>, ip: Seq<char>, k: Key) -> (
    AppView,
    EffectView,
) {
    match k {
        Key::Enter => if trim(a.input).len() > 0 {
            (
                AppView { mode: ModeView::Normal, input: seq![], ..a },
                EffectView::Ssh(name, trim(a.input) + "@"@ + ip),
            )
        } else {
            no_effect(a)
        },
        Key::Esc => no_effect(AppView { mode: ModeView::Normal, input: seq![], ..a }),
        Key::Backspace => no_effect(
            AppView {
                input: if a.input.len() > 0 {
                    a.input.drop_last()
                } else {
                    a.input
                },
                ..a
            },
        ),
        Key::Char(c) => no_effect(AppView { input: a.input.push(c), ..a }),
        _ => no_effect(a),
    }
}

/// The state and the effect that follow an event.
pub open spec fn transition(a: AppView, e: Event) -> (AppView, EffectView) {
    match e {
        Event::Tick => (a, EffectView::Refresh),
        Event::Key(k) => match a.mode {
            ModeView::Normal => normal_key(a, k),
            ModeView::Confirm(name, action) => confirm_key(a, name, action, k),
            ModeView::SshInput(name, ip) => ssh_key(a, name, ip, k),
        },
    }
}

pub open spec fn vm_views(vms: Seq<Vm>) -> Seq<VmView> {
    vms.map_values(|v: Vm| v@)
}

fn state_is(vm: &Vm, state: &str) -> (r: bool)
    ensures
        r == (vm.state@ == state@),
{
    eq_str(chars_of(vm.state.as_str()).as_slice(), state)
}

impl App {
    /// The selection fits the records.
    pub open spec fn wf(&self) -> bool {
        selection_fits(self.selected, self.vms@.len())
    }

    /// A session over a first listing: browsing, the first record selected
    /// when there is one, nothing typed, no details yet.
    pub fn new(vms: Vec<Vm>, show_all: bool) -> (r: App)
        ensures
            r.wf(),
            r@ == (AppView {
                vms: vm_views(vms@),
                selected: if vms@.len() == 0 {
                    None
                } else {
                    Some(0usize)
                },
                mode: ModeView::Normal,
                input: seq![],
                show_all,
                info_cache: None,
            }),
    {
        let selected = if vms.len() == 0 {
            None
        } else {
            Some(0)
        };
        App { vms, selected, mode: Mode::Normal, input: Vec::new(), show_all, info_cache: None }
    }

    /// The selected record, if any.
    pub fn selected_vm(&self) -> (r: Option<&Vm>)
        ensures
            match r {
                Some(vm) => self@.selected_vm() == Some(vm@),
                None => self@.selected_vm() is None,
            },
    {
        match self.selected {
            Some(i) => if i < self.vms.len() {
                Some(&self.vms[i])
            } else {
                None
            },
            None => None,
        }
    }

    /// Moves the selection down, wrapping from the last record to the first.
    pub fn next(&mut self)
        requires
            old(self).wf(),
        ensures
            final(self).wf(),
            final(self)@ == (AppView {
                selected: next_index(old(self).selected, old(self).vms@.len()),
                ..old(self)@
            }),
    {
        if self.vms.len() == 0 {
            return;
        }
        let i = match self.selected {
            Some(i) => if i >= self.vms.len() - 1 {
                0
            } else {
                i + 1
            },
            None => 0,
        };
        self.selected = Some(i);
    }

    /// Moves the selection up, wrapping from the first record to the last.
    pub fn previous(&mut self)
        requires
            old(self).wf(),
        ensures
            final(self).wf(),
            final(self)@ == (AppView {
                selected: previous_index(old(self).selected, old(self).vms@.len()),
                ..old(self)@
            }),
    {
        if self.vms.len() == 0 {
            return;
        }
        let i = match self.selected {
            Some(0) => self.vms.len() - 1,
            Some(i) => i - 1,
            None => 0,
        };
        self.selected = Some(i);
    }

    /// Takes a new listing: the selection is kept where it can be (see
    /// `clamped_index`) and the detail text is dropped.
    pub fn refresh_vms(&mut self, vms: Vec<Vm>)
        ensures
            final(self).wf(),
            final(self)@ == (AppView {
                vms: vm_views(vms@),
                selected: clamped_index(old(self).selected, vms@.len()),
                info_cache: None,
                ..old(self)@
            }),
    {
        let n = vms.len();
        self.vms = vms;
        if n == 0 {
            self.selected = None;
        } else {
            let i = match self.selected {
                Some(i) => if i < n {
                    i
                } else {
                    n - 1
                },
                None => 0,
            };
            self.selected = Some(i);
        }
        self.info_cache = None;
    }

    /// Keeps the detail text in step with the selection. With nothing
    /// selected the text is dropped. Returns the name of the selected
    /// machine when its details must be computed, that is when no text is
    /// held or the text held is for another name; the caller then hands the
    /// text to `set_info`.
    pub fn update_info_cache(&mut self) -> (r: Option<String>)
        ensures
            match old(self)@.selected_vm() {
                None => final(self)@ == (AppView { info_cache: None, ..old(self)@ }) && r is None,
                Some(vm) => final(self)@ == old(self)@ && match old(self)@.info_cache {
                    Some((cached, _)) => if cached == vm.name {
                        r is None
                    } else {
                        r is Some && r->0@ == vm.name
                    },
                    None => r is Some && r->0@ == vm.name,
                },
            },
    {
        let name = match self.selected_vm() {
            Some(vm) => vm.name.clone(),
            None => {
                self.info_cache = None;
                return None;
            },
        };
        let needs = match &self.info_cache {
            Some((cached, _)) => !(*cached == name),
            None => true,
        };
        if needs {
            Some(name)
        } else {
            None
        }
    }

    /// Holds `text` as the details of the machine `name`.
    pub fn set_info(&mut self, name: String, text: String)
        ensures
            final(self)@ == (AppView { info_cache: Some((name@, text@)), ..old(self)@ }),
    {
        self.info_cache = Some((name, text));
    }

    /// After `Effect::ResolveAddresses`: with at least one address for the
    /// selected machine `name`, asks for a user name for the first address,
    /// with nothing typed yet; with none, the state stays.
    pub fn addresses_resolved(&mut self, name: String, ips: &Vec<String>)
        ensures
            ips@.len() > 0 ==> final(self)@ == (AppView {
                mode: ModeView::SshInput(name@, ips@[0]@),
                input: seq![],
                ..old(self)@
            }),
            ips@.len() == 0 ==> final(self)@ == old(self)@,
    {
        if ips.len() > 0 {
            self.input = Vec::new();
            assert(self.input@ =~= seq![]);
            self.mode = Mode::SshInput { vm_name: name, ip: ips[0].clone() };
        }
    }

    /// The text typed so far.
    pub fn input_text(&self) -> (r: String)
        ensures
            r@ == self.input@,
    {
        string_from(self.input.as_slice())
    }

    fn on_normal_key(&mut self, k: Key) -> (r: Effect)
        requires
            old(self).wf(),
        ensures
            final(self).wf(),
            (final(self)@, r@) == normal_key(old(self)@, k),
    {
        match k {
            Key::Char('q') | Key::Esc => Effect::Quit,
            Key::Down | Key::Char('j') => {
                self.next();
                Effect::Nothing
            },
            Key::Up | Key::Char('k') => {
                self.previous();
                Effect::Nothing
            },
            Key::Enter => match self.selected_vm() {
                Some(vm) => if state_is(vm, "running") {
                    Effect::Console(vm.name.clone())
                } else {
                    Effect::Nothing
                },
                None => Effect::Nothing,
            },
            Key::Char('s') => match self.selected_vm() {
                Some(vm) => if state_is(vm, "running") {
                    Effect::ResolveAddresses(vm.name.clone())
                } else {
                    Effect::Nothing
                },
                None => Effect::Nothing,
            },
            Key::Char('u') => {
                let name = match self.selected_vm() {
                    Some(vm) => if state_is(vm, "shut off") {
                        vm.name.clone()
                    } else {
                        return Effect::Nothing;
                    },
                    None => {
                        return Effect::Nothing;
                    },
                };
                self.mode = Mode::Confirm { vm_name: name, action: Action::Start };
                Effect::Nothing
            },
            Key::Char('A') => {
                self.show_all = !self.show_all;
                Effect::Refresh
            },
            Key::Char('d') => {
                let name = match self.selected_vm() {
                    Some(vm) => if state_is(vm, "running") {
                        vm.name.clone()
                    } else {
                        return Effect::Nothing;
                    },
                    None => {
                        return Effect::Nothing;
                    },
                };
                self.mode = Mode::Confirm { vm_name: name, action: Action::Shutdown };
                Effect::Nothing
            },
            _ => Effect::Nothing,
        }
    }

    fn on_confirm_key(&mut self, name: String, action: Action, k: Key) -> (r: Effect)
        requires
            old(self).wf(),
        ensures
            final(self).wf(),
            (final(self)@, r@) == confirm_key(old(self)@, name@, action, k),
    {
        match k {
            Key::Char('y') => {
                self.mode = Mode::Normal;
                Effect::Lifecycle(action, name)
            },
            Key::Char('n') | Key::Esc => {
                self.mode = Mode::Normal;
                Effect::Nothing
            },
            _ => Effect::Nothing,
        }
    }

    fn on_ssh_key(&mut self, name: String, ip: String, k: Key) -> (r: Effect)
        requires
            old(self).wf(),
        ensures
            final(self).wf(),
            (final(self)@, r@) == ssh_key(old(self)@, name@, ip@, k),
    {
        match k {
            Key::Enter => {
                let user = trim_chars(self.input.as_slice());
                if user.len() == 0 {
                    return Effect::Nothing;
                }
                let mut dest = user;
                let at = chars_of("@");
                dest.extend_from_slice(at.as_slice());
                assert(dest@ == trim(old(self)@.input) + "@"@);
                let ipc = chars_of(ip.as_str());
                dest.extend_from_slice(ipc.as_slice());
                assert(dest@ == trim(old(self)@.input) + "@"@ + ip@);
                self.mode = Mode::Normal;
                self.input = Vec::new();
                assert(self.input@ =~= seq![]);
                Effect::Ssh(name, string_from(dest.as_slice()))
            },
            Key::Esc => {
                self.mode = Mode::Normal;
                self.input = Vec::new();
                assert(self.input@ =~= seq![]);
                Effect::Nothing
            },
            Key::Backspace => {
                if self.input.len() > 0 {
                    let ghost before = self.input@;
                    self.input.pop();
                    assert(self.input@ =~= before.drop_last());
                }
                Effect::Nothing
            },
            Key::Char(c) => {
                self.input.push(c);
                Effect::Nothing
            },
            _ => Effect::Nothing,
        }
    }

    /// Reacts to one event: the new state and the outside work it asks for
    /// are those of `transition`.
    pub fn handle_event(&mut self, event: Event) -> (r: Effect)
        requires
            old(self).wf(),
        ensures
            final(self).wf(),
            (final(self)@, r@) == transition(old(self)@, event),
    {
        let k = match event {
            Event::Tick => {
                return Effect::Refresh;
            },
            Event::Key(k) => k,
        };
        match &self.mode {
            Mode::Normal => self.on_normal_key(k),
            Mode::Confirm { vm_name, action } => {
                let name = vm_name.clone();
                let action = *action;
                self.on_confirm_key(name, action, k)
            },
            Mode::SshInput { vm_name, ip } => {
                let name = vm_name.clone();
                let ip = ip.clone();
                self.on_ssh_key(name, ip, k)
            },
        }
    }
}

/// Moving is circular: down from the last record selects the first, up
/// from the first selects the last, and with no records neither move
/// changes the (empty) selection.
pub proof fn lemma_navigation_wraps(n: nat)
    requires
        n <= usize::MAX,
    ensures
        n > 0 ==> next_index(Some((n - 1) as usize), n) == Some(0usize),
        n > 0 ==> previous_index(Some(0usize), n) == Some((n - 1) as usize),
        next_index(None, 0) == None::<usize>,
        previous_index(None, 0) == None::<usize>,
{
}

pub open spec fn names_distinct(vms: Seq<VmView>) -> bool {
    forall|i: int, j: int| 0 <= i < j < vms.len() ==> vms[i].name != vms[j].name
}

/// With distinct names and at least two records, every move down or up
/// selects a machine of another name, so that `update_info_cache` asks for
/// the details after each: n moves give n recomputations.
pub proof fn lemma_each_move_recomputes(a: AppView)
    requires
        selection_fits(a.selected, a.vms.len()),
        a.selected is Some,
        names_distinct(a.vms),
        2 <= a.vms.len() <= usize::MAX,
    ensures
        (AppView { selected: next_index(a.selected, a.vms.len()), ..a }).selected_vm()->0.name
            != a.selected_vm()->0.name,
        (AppView { selected: previous_index(a.selected, a.vms.len()), ..a }).selected_vm()->0.name
            != a.selected_vm()->0.name,
{
    let n = a.vms.len();
    let i = a.selected->0 as int;
    let j = next_index(a.selected, n)->0 as int;
    let k = previous_index(a.selected, n)->0 as int;
    assert(j != i && k != i);
    if i < j {
        assert(a.vms[i].name != a.vms[j].name);
    } else {
        assert(a.vms[j].name != a.vms[i].name);
    }
    if i < k {
        assert(a.vms[i].name != a.vms[k].name);
    } else {
        assert(a.vms[k].name != a.vms[i].name);
    }
}

/// While an action waits for confirmation, a key other than `y`, `n` or
/// Esc changes nothing: mode, selection, details and typed text stay.
pub proof fn lemma_confirm_ignores_other_keys(a: AppView, k: Key)
    requires
        a.mode is Confirm,
        k != Key::Char('y'),
        k != Key::Char('n'),
        k != Key::Esc,
    ensures
        transition(a, Event::Key(k)) == (a, EffectView::Nothing),
{
}

impl Action {
    /// The hypervisor tool's command for the action.
    pub fn command(&self) -> (r: &'static str)
        ensures
            r@ == match self {
                Action::Start => "start"@,
                Action::Shutdown => "shutdown"@,
            },
    {
        match self {
            Action::Start => "start",
            Action::Shutdown => "shutdown",
        }
    }

    /// The action's name as the confirmation prompt shows it.
    pub fn label(&self) -> (r: &'static str)
        ensures
            r@ == match self {
                Action::Start => "Start"@,
                Action::Shutdown => "Shut down"@,
            },
    {
        match self {
            Action::Start => "Start",
            Action::Shutdown => "Shut down",
        }
    }
}

/// The colour in which a state is shown.
#[derive(Clone, Copy, Debug, PartialEq, Eq, Structural)]
pub enum StateColor {
    Green,
    Red,
    Yellow,
    Plain,
}

/// Running machines show green, shut off ones red, paused ones yellow,
/// others plain.
pub fn state_color(state: &str) -> (r: StateColor)
    ensures
        r == if state@ == "running"@ {
            StateColor::Green
        } else if state@ == "shut off"@ {
            StateColor::Red
        } else if state@ == "paused"@ {
            StateColor::Yellow
        } else {
            StateColor::Plain
        },
{
    let c = chars_of(state);
    if eq_str(c.as_slice(), "running") {
        StateColor::Green
    } else if eq_str(c.as_slice(), "shut off") {
        StateColor::Red
    } else if eq_str(c.as_slice(), "paused") {
        StateColor::Yellow
    } else {
        StateColor::Plain
    }
}

/// The arguments of the list command: inactive machines too when
/// `show_all` holds.
pub fn list_args(show_all: bool) -> (r: Vec<&'static str>)
    ensures
        show_all ==> r@.len() == 2 && r@[0]@ == "list"@ && r@[1]@ == "--all"@,
        !show_all ==> r@.len() == 1 && r@[0]@ == "list"@,
{
    if show_all {
        vec!["list", "--all"]
    } else {
        vec!["list"]
    }
}

} // verus!
