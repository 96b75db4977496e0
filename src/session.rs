use crate::console::{kept, log_to_console, ConsoleWindow};
use crate::text::{get_size_label, size_label};
use vstd::prelude::*;

verus! {

/// The sizes of the entries that are switched on, in order.
pub open spec fn enabled_sizes(entries: Seq<(usize, bool)>) -> Seq<usize>
    decreases entries.len(),
{
    if entries.len() == 0 {
        Seq::empty()
    } else {
        let rest = enabled_sizes(entries.drop_last());
        if entries.last().1 {
            rest.push(entries.last().0)
        } else {
            rest
        }
    }
}

/// The message logged when measuring `size`-byte reads begins.
pub open spec fn test_start_message(size: nat) -> Seq<char> {
    "Testing with read size: "@ + size_label(size)
}

/// The message logged and shown when a phase fails with `error`.
pub open spec fn test_error_message(error: Seq<char>) -> Seq<char> {
    "Test error: "@ + error
}

/// The sizes of the entries that are switched on, in the order given.
pub fn collect_enabled_sizes(test_sizes: &[(usize, bool)]) -> (r: Vec<usize>)
    ensures
        r@ == enabled_sizes(test_sizes@),
{
    let mut r: Vec<usize> = Vec::new();
    let mut i: usize = 0;
    while i < test_sizes.len()
        invariant
            i <= test_sizes@.len(),
            r@ == enabled_sizes(test_sizes@.subrange(0, i as int)),
        decreases test_sizes@.len() - i,
    {
        let (size, enabled) = test_sizes[i];
        assert(test_sizes@.subrange(0, i + 1).drop_last() =~= test_sizes@.subrange(0, i as int));
        if enabled {
            r.push(size);
        }
        i = i + 1;
    }
    assert(test_sizes@.subrange(0, i as int) =~= test_sizes@);
    r
}

/// Logs that measuring `size`-byte reads begins.
pub fn log_test_start(console: &mut ConsoleWindow, size: usize)
    ensures
        final(console).spec_logs().drop_last() == kept(old(console).spec_logs()),
        final(console).spec_logs().last()@ == test_start_message(size as nat),
        final(console).spec_visible() == old(console).spec_visible(),
{
    let mut message = String::from_str("Testing with read size: ");
    let label = get_size_label(size);
    message.append(label.as_str());
    log_to_console(console, message.as_str());
}

/// Logs that a phase failed with `error` and returns the same message, to be shown to the user.
pub fn handle_test_error(console: &mut ConsoleWindow, error: &str) -> (r: String)
    ensures
        r@ == test_error_message(error@),
        final(console).spec_logs().drop_last() == kept(old(console).spec_logs()),
        final(console).spec_logs().last()@ == r@,
        final(console).spec_visible() == old(console).spec_visible(),
{
    let mut message = String::from_str("Test error: ");
    message.append(error);
    log_to_console(console, message.as_str());
    message
}

} // verus!
