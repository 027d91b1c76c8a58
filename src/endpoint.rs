use vstd::prelude::*;

verus! {

/// Where the order requests of a run come from.
#[derive(Debug, Clone, Default)]
pub enum Input {
    /// The process's standard input.
    #[default]
    Stdin,
    /// A file, by its path.
    File(String),
}

/// Where the result of a run goes.
#[derive(Debug, Clone, Default)]
pub enum Output {
    /// The process's standard output.
    #[default]
    Stdout,
    /// A file, by its path. Declared, not supported.
    File(String),
}

impl Input {
    /// Any text names a file: standard input is chosen by giving no path.
    pub fn from_str(s: &str) -> (r: Input)
        ensures
            r is File,
            r->File_0@ == s@,
    {
        Input::File(s.to_owned())
    }
}

impl Output {
    /// Any text names a file: standard output is chosen by giving no path.
    pub fn from_str(s: &str) -> (r: Output)
        ensures
            r is File,
            r->File_0@ == s@,
    {
        Output::File(s.to_owned())
    }
}

/// Why a run could not report its result.
#[derive(Debug, Clone, Copy, PartialEq, Eq)]
pub enum ReportError {
    /// Writing the result to a file is not implemented.
    Unimplemented,
}

/// Reports the end of a run. Standard output needs nothing beyond what the
/// dispatch loop has already logged; a file sink fails, always.
pub fn report(output: &Output) -> (r: Result<(), ReportError>)
    ensures
        output is Stdout <==> r is Ok,
        output is File <==> r == Err::<(), ReportError>(ReportError::Unimplemented),
{
    match output {
        Output::Stdout => Ok(()),
        Output::File(_) => Err(ReportError::Unimplemented),
    }
}

} // verus!
