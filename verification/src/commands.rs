//! Window commands and the control interface: the queue that hands window
//! commands to their listeners in order, the answer to each control request,
//! and the calls the command-line client makes.
use vstd::prelude::*;


verus! {

/// A command about a window, by name.
#[derive(Debug, Clone)]
pub enum AppCommand {
    Open(String),
    Close(String),
    Toggle(String),
    SetVisible(String, bool),
}

/// Commands waiting to be handed to the listeners, and the listeners.
///
/// A command queued while the queue is being drained waits behind the ones
/// already there; the caller that found the queue idle drains it: it takes
/// each command in turn, calls each listener with it, and drops the
/// listeners that asked to be dropped.
pub struct AppCommandQueue {
    pending: Vec<AppCommand>,
    dispatching: bool,
    listeners: Vec<u64>,
    next_listener_id: u64,
}

/// What the queue holds: the pending commands, first to go first; whether it
/// is being drained; the listeners in the order they subscribed; the last
/// listener number given out.
pub struct QueueView {
    pub pending: Seq<AppCommand>,
    pub dispatching: bool,
    pub listeners: Seq<u64>,
    pub last_id: u64,
}

impl View for AppCommandQueue {
    type V = QueueView;

    closed spec fn view(&self) -> QueueView {
        QueueView {
            pending: self.pending@,
            dispatching: self.dispatching,
            listeners: self.listeners@,
            last_id: self.next_listener_id,
        }
    }
}

/// The queue after `cmd` is queued: last in line, and being drained.
pub open spec fn after_enqueue(q: QueueView, cmd: AppCommand) -> QueueView {
    QueueView { pending: q.pending.push(cmd), dispatching: true, ..q }
}

/// The queue after its first command is taken; an empty queue stops being
/// drained.
pub open spec fn after_take(q: QueueView) -> QueueView {
    if q.pending.len() == 0 {
        QueueView { dispatching: false, ..q }
    } else {
        QueueView { pending: q.pending.drop_first(), ..q }
    }
}

/// The queue after `cmds` are queued in order.
pub open spec fn enqueue_all(q: QueueView, cmds: Seq<AppCommand>) -> QueueView
    decreases cmds.len(),
{
    if cmds.len() == 0 {
        q
    } else {
        after_enqueue(enqueue_all(q, cmds.drop_last()), cmds.last())
    }
}

/// The first `n` commands taken from the queue, in the order they are taken.
pub open spec fn taken(q: QueueView, n: nat) -> Seq<AppCommand>
    decreases n,
{
    if n == 0 || q.pending.len() == 0 {
        seq![]
    } else {
        seq![q.pending[0]] + taken(after_take(q), (n - 1) as nat)
    }
}

impl AppCommandQueue {
    /// An idle queue with no commands and no listeners.
    pub fn new() -> (r: Self)
        ensures
            r@.pending.len() == 0,
            !r@.dispatching,
            r@.listeners.len() == 0,
            r@.last_id == 0,
    {
        AppCommandQueue {
            pending: Vec::new(),
            dispatching: false,
            listeners: Vec::new(),
            next_listener_id: 0,
        }
    }

    /// Queues a command. Returns whether the caller must drain the queue: it
    /// must when the queue was idle; otherwise the drain under way takes the
    /// command in its turn.
    pub fn enqueue(&mut self, cmd: AppCommand) -> (start: bool)
        ensures
            start == !old(self)@.dispatching,
            final(self)@ == after_enqueue(old(self)@, cmd),
    {
        self.pending.push(cmd);
        if self.dispatching {
            return false;
        }
        self.dispatching = true;
        true
    }

    /// Takes the first pending command; when none is left, the drain ends.
    pub fn next_command(&mut self) -> (r: Option<AppCommand>)
        ensures
            final(self)@ == after_take(old(self)@),
            old(self)@.pending.len() == 0 ==> r is None,
            old(self)@.pending.len() > 0 ==> r == Some(old(self)@.pending[0]),
    {
        if self.pending.len() == 0 {
            self.dispatching = false;
            None
        } else {
            let cmd = self.pending.remove(0);
            assert(self.pending@ =~= old(self)@.pending.drop_first());
            Some(cmd)
        }
    }

    /// Subscribes a listener and returns its number: one more than the last
    /// one given out, saturating.
    pub fn subscribe(&mut self) -> (id: u64)
        ensures
            id == (if old(self)@.last_id == u64::MAX {
                u64::MAX
            } else {
                (old(self)@.last_id + 1) as u64
            }),
            final(self)@ == (QueueView {
                listeners: old(self)@.listeners.push(id),
                last_id: id,
                ..old(self)@
            }),
    {
        let id = if self.next_listener_id == u64::MAX {
            u64::MAX
        } else {
            self.next_listener_id + 1
        };
        self.next_listener_id = id;
        self.listeners.push(id);
        id
    }

    /// The listeners to hand the current command to, in subscription order.
    pub fn listener_ids(&self) -> (r: Vec<u64>)
        ensures
            r@ == self@.listeners,
    {
        self.listeners.clone()
    }

    /// Drops the listeners whose numbers are in `stale`; the others keep
    /// their order.
    pub fn remove_listeners(&mut self, stale: &Vec<u64>)
        ensures
            final(self)@ == after_remove(old(self)@, stale@),
    {
        let ghost all = self.listeners@;
        let ghost keep = |id: u64| !stale@.contains(id);
        let mut kept: Vec<u64> = Vec::new();
        let mut i: usize = 0;
        while i < self.listeners.len()
            invariant
                i <= self.listeners.len(),
                all == self.listeners@,
                keep == (|id: u64| !stale@.contains(id)),
                kept@ == all.take(i as int).filter(keep),
            decreases self.listeners.len() - i,
        {
            let id = self.listeners[i];
            let mut found = false;
            let mut j: usize = 0;
            while j < stale.len()
                invariant
                    j <= stale.len(),
                    found == exists|k: int| 0 <= k < j && stale@[k] == id,
                decreases stale.len() - j,
            {
                if stale[j] == id {
                    found = true;
                }
                j += 1;
            }
            proof {
                assert(all.take(i + 1).drop_last() =~= all.take(i as int));
                reveal(Seq::filter);
                if found {
                    let k = choose|k: int| 0 <= k < stale.len() && stale@[k] == id;
                    assert(stale@.contains(id));
                } else {
                    assert(!stale@.contains(id));
                }
            }
            if !found {
                kept.push(id);
            }
            i += 1;
        }
        assert(all.take(self.listeners.len() as int) =~= all);
        self.listeners = kept;
    }
}

/// The listeners after those in `stale` are dropped; the others keep their
/// order.
pub open spec fn after_remove(q: QueueView, stale: Seq<u64>) -> QueueView {
    QueueView { listeners: q.listeners.filter(|id: u64| !stale.contains(id)), ..q }
}

/// The delivery that the drain makes next: the first pending command, to
/// each listener subscribed when the delivery starts, in the order they
/// subscribed.
pub open spec fn next_delivery(q: QueueView) -> Option<(AppCommand, Seq<u64>)> {
    if q.pending.len() == 0 {
        None
    } else {
        Some((q.pending[0], q.listeners))
    }
}

/// How commands reach the listeners while a drain is under way: a command
/// queued meanwhile (also from inside a listener) is only queued, behind the
/// others, and asks no new drain; the next delivery takes the first pending
/// command, once, to the listeners subscribed at that moment, and leaves the
/// drain running while commands remain; a listener that asked to be dropped
/// gets no later command, and the others keep their order.
pub proof fn law_command_delivery(q: QueueView, cmd: AppCommand, stale: Seq<u64>)
    requires
        q.dispatching,
    ensures
        after_enqueue(q, cmd) == (QueueView { pending: q.pending.push(cmd), ..q }),
        q.pending.len() > 0 ==> {
            &&& next_delivery(q) == Some((q.pending[0], q.listeners))
            &&& after_take(q) == (QueueView { pending: q.pending.drop_first(), ..q })
            &&& after_take(q).dispatching
        },
        q.pending.len() == 0 ==> next_delivery(q) is None && !after_take(q).dispatching,
        forall|id: u64| #[trigger] stale.contains(id) ==> !after_remove(q, stale).listeners.contains(id),
        forall|id: u64| q.listeners.contains(id) && !stale.contains(id) ==> #[trigger] after_remove(q, stale).listeners.contains(id),
        after_remove(q, stale).pending == q.pending && after_remove(q, stale).dispatching,
{
    assert forall|id: u64| #[trigger] stale.contains(id) implies !after_remove(q, stale).listeners.contains(id) by {
        if after_remove(q, stale).listeners.contains(id) {
            let i = choose|i: int| 0 <= i < after_remove(q, stale).listeners.len() && after_remove(q, stale).listeners[i] == id;
            q.listeners.filter_lemma(|x: u64| !stale.contains(x));
        }
    }
    assert forall|id: u64| q.listeners.contains(id) && !stale.contains(id) implies #[trigger] after_remove(q, stale).listeners.contains(id) by {
        q.listeners.filter_lemma(|x: u64| !stale.contains(x));
        let i = choose|i: int| 0 <= i < q.listeners.len() && q.listeners[i] == id;
    }
}

/// Commands come out of the queue in the order they went in: queued one by
/// one onto a queue with nothing pending, they are all taken back in that
/// order.
pub proof fn law_commands_first_in_first_out(q: QueueView, cmds: Seq<AppCommand>)
    requires
        q.pending.len() == 0,
    ensures
        enqueue_all(q, cmds).pending == cmds,
        taken(enqueue_all(q, cmds), cmds.len()) == cmds,
    decreases cmds.len(),
{
    if cmds.len() > 0 {
        law_commands_first_in_first_out(q, cmds.drop_last());
        assert(enqueue_all(q, cmds).pending =~= cmds);
    }
    lemma_taken_all(enqueue_all(q, cmds));
}

/// Taking as many commands as are pending takes all of them, in order.
pub proof fn lemma_taken_all(q: QueueView)
    ensures
        taken(q, q.pending.len()) == q.pending,
    decreases q.pending.len(),
{
    if q.pending.len() > 0 {
        let r = after_take(q);
        lemma_taken_all(r);
        assert(r.pending =~= q.pending.drop_first());
        assert(seq![q.pending[0]] + r.pending =~= q.pending);
    }
}

/// A request to the control interface. The replies are the caller's.
#[derive(Debug, Clone)]
pub enum ControlRequest {
    OpenWindow(String),
    CloseWindow(String),
    ToggleWindow(String),
    SetWindowVisible(String, bool),
    ListWindows,
    ReloadConfig,
    ReloadCss,
    Ping,
}

/// What the daemon does for a control request.
#[derive(Debug, Clone)]
pub enum ControlAction {
    /// Queue a window command.
    Queue(AppCommand),
    /// Reply with the window names, sorted.
    ListWindows,
    /// Reload the configuration and reply with the outcome.
    ReloadConfig,
    /// Reload the style sheet and reply with the outcome.
    ReloadCss,
    /// Reply with this text.
    Reply(String),
}

/// What the daemon does for a control request: window requests become
/// window commands, a ping is answered `pong`.
pub fn handle_control_request(req: ControlRequest) -> (r: ControlAction)
    ensures
        match req {
            ControlRequest::OpenWindow(n) => r == ControlAction::Queue(AppCommand::Open(n)),
            ControlRequest::CloseWindow(n) => r == ControlAction::Queue(AppCommand::Close(n)),
            ControlRequest::ToggleWindow(n) => r == ControlAction::Queue(AppCommand::Toggle(n)),
            ControlRequest::SetWindowVisible(n, v) => r == ControlAction::Queue(
                AppCommand::SetVisible(n, v),
            ),
            ControlRequest::ListWindows => r == ControlAction::ListWindows,
            ControlRequest::ReloadConfig => r == ControlAction::ReloadConfig,
            ControlRequest::ReloadCss => r == ControlAction::ReloadCss,
            ControlRequest::Ping => r matches ControlAction::Reply(s) && s@ == "pong"@,
        },
{
    match req {
        ControlRequest::OpenWindow(n) => ControlAction::Queue(AppCommand::Open(n)),
        ControlRequest::CloseWindow(n) => ControlAction::Queue(AppCommand::Close(n)),
        ControlRequest::ToggleWindow(n) => ControlAction::Queue(AppCommand::Toggle(n)),
        ControlRequest::SetWindowVisible(n, v) => ControlAction::Queue(AppCommand::SetVisible(n, v)),
        ControlRequest::ListWindows => ControlAction::ListWindows,
        ControlRequest::ReloadConfig => ControlAction::ReloadConfig,
        ControlRequest::ReloadCss => ControlAction::ReloadCss,
        ControlRequest::Ping => ControlAction::Reply(String::from_str("pong")),
    }
}

/// A command of the command-line client.
#[derive(Debug, Clone)]
pub enum Command {
    Daemon,
    Open { name: String },
    Close { name: String },
    Toggle { name: String },
    Show { name: String },
    Hide { name: String },
    List,
    Reload,
    ReloadCss,
    Ping,
}

/// A call of the daemon's control interface: the method, its arguments, and
/// the name of the action for the message when it fails.
#[derive(Debug, Clone)]
pub struct ClientCall {
    pub method: &'static str,
    pub name: Option<String>,
    pub visible: Option<bool>,
    pub action: &'static str,
}

/// Whether the program runs the daemon: with no command, or the `daemon`
/// command.
pub fn runs_daemon(cmd: &Option<Command>) -> (r: bool)
    ensures
        r == (cmd is None || cmd == Some(Command::Daemon)),
{
    match cmd {
        None => true,
        Some(Command::Daemon) => true,
        Some(_) => false,
    }
}

/// The call a client command makes; the `daemon` command makes none.
pub fn client_call(cmd: &Command) -> (r: Option<ClientCall>)
    ensures
        match *cmd {
            Command::Daemon => r is None,
            Command::Open { name } => r == Some(
                ClientCall { method: "OpenWindow", name: Some(name), visible: None, action: "open" },
            ),
            Command::Close { name } => r == Some(
                ClientCall { method: "CloseWindow", name: Some(name), visible: None, action: "close" },
            ),
            Command::Toggle { name } => r == Some(
                ClientCall { method: "ToggleWindow", name: Some(name), visible: None, action: "toggle" },
            ),
            Command::Show { name } => r == Some(
                ClientCall {
                    method: "SetWindowVisible",
                    name: Some(name),
                    visible: Some(true),
                    action: "show",
                },
            ),
            Command::Hide { name } => r == Some(
                ClientCall {
                    method: "SetWindowVisible",
                    name: Some(name),
                    visible: Some(false),
                    action: "hide",
                },
            ),
            Command::List => r == Some(
                ClientCall { method: "ListWindows", name: None, visible: None, action: "list" },
            ),
            Command::Reload => r == Some(
                ClientCall { method: "Reload", name: None, visible: None, action: "reload" },
            ),
            Command::ReloadCss => r == Some(
                ClientCall { method: "ReloadCss", name: None, visible: None, action: "reload-css" },
            ),
            Command::Ping => r == Some(
                ClientCall { method: "Ping", name: None, visible: None, action: "ping" },
            ),
        },
{
    match cmd {
        Command::Daemon => None,
        Command::Open { name } => Some(
            ClientCall { method: "OpenWindow", name: Some(name.clone()), visible: None, action: "open" },
        ),
        Command::Close { name } => Some(
            ClientCall {
                method: "CloseWindow",
                name: Some(name.clone()),
                visible: None,
                action: "close",
            },
        ),
        Command::Toggle { name } => Some(
            ClientCall {
                method: "ToggleWindow",
                name: Some(name.clone()),
                visible: None,
                action: "toggle",
            },
        ),
        Command::Show { name } => Some(
            ClientCall {
                method: "SetWindowVisible",
                name: Some(name.clone()),
                visible: Some(true),
                action: "show",
            },
        ),
        Command::Hide { name } => Some(
            ClientCall {
                method: "SetWindowVisible",
                name: Some(name.clone()),
                visible: Some(false),
                action: "hide",
            },
        ),
        Command::List => Some(
            ClientCall { method: "ListWindows", name: None, visible: None, action: "list" },
        ),
        Command::Reload => Some(
            ClientCall { method: "Reload", name: None, visible: None, action: "reload" },
        ),
        Command::ReloadCss => Some(
            ClientCall { method: "ReloadCss", name: None, visible: None, action: "reload-css" },
        ),
        Command::Ping => Some(ClientCall { method: "Ping", name: None, visible: None, action: "ping" }),
    }
}

/// The message for a failed call: `<action> failed: <error>`.
pub fn client_failure(action: &str, err: &str) -> (r: String)
    ensures
        r@ == action@ + " failed: "@ + err@,
{
    let mut m = String::from_str(action);
    m.append(" failed: ");
    m.append(err);
    m
}

/// The message when the session bus cannot be reached.
pub fn session_bus_failure(err: &str) -> (r: String)
    ensures
        r@ == "failed to connect to session bus: "@ + err@,
{
    let mut m = String::from_str("failed to connect to session bus: ");
    m.append(err);
    m
}

/// The message when the daemon does not answer on the bus.
pub fn daemon_unreachable(err: &str) -> (r: String)
    ensures
        r@ == "daemon not reachable; start `lush daemon` first ("@ + err@ + ")"@,
{
    let mut m = String::from_str("daemon not reachable; start `lush daemon` first (");
    m.append(err);
    m.append(")");
    m
}

} // verus!
