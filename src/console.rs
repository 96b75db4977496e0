use std::collections::VecDeque;
use vstd::prelude::*;

verus! {

/// Most messages the console keeps; a new one beyond that drops the oldest.
pub const MAX_LOG_ENTRIES: usize = 1_000_000;

/// A scroll-back log of messages, with whether it is shown.
pub struct ConsoleWindow {
    logs: VecDeque<String>,
    visible: bool,
}

/// The messages of `logs` that stay when one more is logged: all, or all but the
/// oldest when the log is full.
pub open spec fn kept(logs: Seq<String>) -> Seq<String> {
    if logs.len() >= MAX_LOG_ENTRIES {
        logs.drop_first()
    } else {
        logs
    }
}

/// The messages kept after logging `message` to a console holding `logs`.
pub open spec fn logged(logs: Seq<String>, message: String) -> Seq<String> {
    kept(logs).push(message)
}

impl ConsoleWindow {
    /// The messages kept, oldest first.
    pub closed spec fn spec_logs(&self) -> Seq<String> {
        self.logs@
    }

    /// Whether the console is shown.
    pub closed spec fn spec_visible(&self) -> bool {
        self.visible
    }

    /// An empty, hidden console.
    pub fn new() -> (r: ConsoleWindow)
        ensures
            r.spec_logs() == Seq::<String>::empty(),
            !r.spec_visible(),
    {
        ConsoleWindow { logs: VecDeque::new(), visible: false }
    }

    /// Shows a hidden console, hides a shown one.
    pub fn toggle(&mut self)
        ensures
            final(self).spec_visible() == !old(self).spec_visible(),
            final(self).spec_logs() == old(self).spec_logs(),
    {
        self.visible = !self.visible;
    }

    /// Whether the console is shown.
    pub fn is_visible(&self) -> (r: bool)
        ensures
            r == self.spec_visible(),
    {
        self.visible
    }

    /// Appends `message`, dropping the oldest message when the log is full.
    pub fn log(&mut self, message: String)
        ensures
            final(self).spec_logs() == logged(old(self).spec_logs(), message),
            final(self).spec_visible() == old(self).spec_visible(),
            old(self).spec_logs().len() <= MAX_LOG_ENTRIES ==> final(self).spec_logs().len()
                <= MAX_LOG_ENTRIES,
    {
        if self.logs.len() >= MAX_LOG_ENTRIES {
            self.logs.pop_front();
        }
        self.logs.push_back(message);
    }

    /// The messages kept, oldest first.
    pub fn logs(&self) -> (r: &VecDeque<String>)
        ensures
            r@ == self.spec_logs(),
    {
        &self.logs
    }
}

impl Default for ConsoleWindow {
    fn default() -> (r: ConsoleWindow)
        ensures
            r.spec_logs() == Seq::<String>::empty(),
            !r.spec_visible(),
    {
        ConsoleWindow::new()
    }
}

/// Logs a copy of `message` to `console`.
pub fn log_to_console(console: &mut ConsoleWindow, message: &str)
    ensures
        final(console).spec_logs().len() == kept(old(console).spec_logs()).len() + 1,
        final(console).spec_logs().drop_last() == kept(old(console).spec_logs()),
        final(console).spec_logs().last()@ == message@,
        final(console).spec_visible() == old(console).spec_visible(),
{
    let text = String::from_str(message);
    console.log(text);
    assert(logged(old(console).spec_logs(), text).drop_last() =~= kept(old(console).spec_logs()));
}

} // verus!
