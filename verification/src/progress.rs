//! A progress readout for long bulk copies: the message, the total, and the
//! last percentage already reported. The printing itself belongs to the
//! driver around the library.

use vstd::prelude::*;

verus! {

/// Progress over a known total, remembering the last percentage logged so
/// that a reporter can print each value once.
#[derive(Debug, Clone)]
pub struct ProgressLogger {
    pub message: String,
    pub total_count: usize,
    pub last_logged_percent: i32,
}

impl ProgressLogger {
    /// A progress readout reporting in real time.
    pub fn new(message: &str, total_count: usize) -> (r: Self)
        ensures
            r.message@ == message@,
            r.total_count == total_count,
            r.last_logged_percent == -1,
    {
        Self::new_with_realtime(message, total_count, true)
    }

    /// A progress readout; the flag selects real-time reporting.
    pub fn new_with_realtime(message: &str, total_count: usize, _show_realtime: bool) -> (r: Self)
        ensures
            r.message@ == message@,
            r.total_count == total_count,
            r.last_logged_percent == -1,
    {
        ProgressLogger {
            message: String::from_str(message),
            total_count,
            last_logged_percent: -1,
        }
    }

    /// The whole percentage `current` makes of the total; 100 when the
    /// total is zero.
    pub fn percent_of(&self, current_count: usize) -> (r: u128)
        ensures
            self.total_count > 0 ==> r == current_count * 100 / (self.total_count as int),
            self.total_count == 0 ==> r == 100,
    {
        if self.total_count == 0 {
            return 100;
        }
        let scaled: u128 = current_count as u128 * 100;
        scaled / (self.total_count as u128)
    }
}

} // verus!
