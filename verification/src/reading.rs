use vstd::prelude::*;

verus! {

/// A decoded physical measurement.  Temperature and humidity carry the
/// IEEE-754 single-precision bit pattern of the measured value (the library
/// itself never computes with the number); light carries the raw lux count.
#[derive(Copy, Clone, PartialEq, Eq, Structural, Debug)]
pub enum Reading {
    Temperature(u32),
    Humidity(u32),
    Lux(u16),
}

/// The failing stage of a command that did not produce a reading.
#[derive(Copy, Clone, PartialEq, Eq, Structural, Debug)]
pub enum ReadingError {
    InvalidSerialError,
    SerialOpenFailure,
    SerialWriteFailure,
    SerialReadFailure,
    SerialDecodeFailure,
    SerialParseError,
}

/// A failed command outcome: the failing stage plus a human-readable message.
#[derive(Debug)]
pub struct CommandError {
    pub error_type: ReadingError,
    pub message: String,
}

impl View for CommandError {
    type V = (ReadingError, Seq<char>);

    open spec fn view(&self) -> (ReadingError, Seq<char>) {
        (self.error_type, self.message@)
    }
}

/// Mathematical value of one per-command outcome: the reading on success, or
/// the failing stage with its message text.
pub open spec fn outcome_view(o: Result<Reading, CommandError>) -> Result<
    Reading,
    (ReadingError, Seq<char>),
> {
    match o {
        Result::Ok(r) => Result::Ok(r),
        Result::Err(e) => Result::Err(e@),
    }
}

} // verus!
