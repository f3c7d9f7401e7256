//! Destinations for finished trace data.

use std::io::Write;

use vstd::prelude::*;

use crate::types::{NewrLog, NewrSpan};

verus! {

/// A destination for one finished trace's records. Implementations decide
/// what delivery means: printing, buffering, or handing the records to a
/// background sender.
pub trait Reporter {
    /// Deliver one finished trace's span and log records.
    fn report(&self, spans: Vec<NewrSpan>, logs: Vec<NewrLog>);
}

/// A [`Reporter`] that writes a debug rendering of the records to standard
/// output and delivers nothing.
pub struct NoopReport;

/// Relies on `std::io::Stdout::write_fmt` (through `writeln`): prints a
/// debug rendering of the records.
#[verifier::external_body]
fn print_records(spans: &Vec<NewrSpan>, logs: &Vec<NewrLog>) {
    let mut out = std::io::stdout();
    let _ = writeln!(out, "{:#?}\n{:#?}", spans, logs);
}

impl Reporter for NoopReport {
    fn report(&self, spans: Vec<NewrSpan>, logs: Vec<NewrLog>) {
        print_records(&spans, &logs);
    }
}

} // verus!
