use vstd::prelude::*;
use vstd::string::StringExecFns;

use crate::types::{ReadingType, Sensor};

verus! {

/// One of the four fixed sensor queries the engine can issue.
#[derive(PartialEq, Eq, Structural, Hash, Copy, Clone, Debug)]
pub enum McuCommand {
    Am2320Humidity,
    Am2320Temperature,
    Ds18x20Temperature,
    Lux,
}

impl McuCommand {
    /// The exact ASCII token sent over the wire for this command.
    pub open spec fn spec_wire_token(self) -> Seq<char> {
        match self {
            McuCommand::Am2320Humidity => "am2320_humidity"@,
            McuCommand::Am2320Temperature => "am2320_temp"@,
            McuCommand::Ds18x20Temperature => "ds18x20_temp"@,
            McuCommand::Lux => "lux"@,
        }
    }

    /// The full request line: the wire token followed by a carriage return.
    pub open spec fn spec_wire_line(self) -> Seq<char> {
        self.spec_wire_token().push('\r')
    }

    /// Wire token for this command, exactly as the device expects it.
    pub fn wire_token(self) -> (s: &'static str)
        ensures
            s@ == self.spec_wire_token(),
    {
        match self {
            McuCommand::Am2320Humidity => "am2320_humidity",
            McuCommand::Am2320Temperature => "am2320_temp",
            McuCommand::Ds18x20Temperature => "ds18x20_temp",
            McuCommand::Lux => "lux",
        }
    }

    /// Request line for this command: wire token plus the `\r` terminator.
    pub fn wire_line(self) -> (s: &'static str)
        ensures
            s@ == self.spec_wire_line(),
    {
        match self {
            McuCommand::Am2320Humidity => {
                proof {
                    reveal_strlit("am2320_humidity");
                    reveal_strlit("am2320_humidity\r");
                    assert("am2320_humidity\r"@ =~= "am2320_humidity"@.push('\r'));
                }
                "am2320_humidity\r"
            },
            McuCommand::Am2320Temperature => {
                proof {
                    reveal_strlit("am2320_temp");
                    reveal_strlit("am2320_temp\r");
                    assert("am2320_temp\r"@ =~= "am2320_temp"@.push('\r'));
                }
                "am2320_temp\r"
            },
            McuCommand::Ds18x20Temperature => {
                proof {
                    reveal_strlit("ds18x20_temp");
                    reveal_strlit("ds18x20_temp\r");
                    assert("ds18x20_temp\r"@ =~= "ds18x20_temp"@.push('\r'));
                }
                "ds18x20_temp\r"
            },
            McuCommand::Lux => {
                proof {
                    reveal_strlit("lux");
                    reveal_strlit("lux\r");
                    assert("lux\r"@ =~= "lux"@.push('\r'));
                }
                "lux\r"
            },
        }
    }

    /// Commands selected by a pair of optional filters; `None` when the two
    /// filters are combined, which the selection rejects.
    pub open spec fn spec_selection(
        reading_type: Option<ReadingType>,
        sensor: Option<Sensor>,
    ) -> Option<Seq<McuCommand>> {
        match (reading_type, sensor) {
            (Option::None, Option::None) => Option::Some(
                seq![
                    McuCommand::Am2320Humidity,
                    McuCommand::Am2320Temperature,
                    McuCommand::Ds18x20Temperature,
                    McuCommand::Lux,
                ],
            ),
            (Option::Some(ReadingType::Temperature), Option::None) => Option::Some(
                seq![McuCommand::Am2320Temperature, McuCommand::Ds18x20Temperature],
            ),
            (Option::Some(ReadingType::Humidity), Option::None) => Option::Some(
                seq![McuCommand::Am2320Humidity],
            ),
            (Option::Some(ReadingType::Lux), Option::None) => Option::Some(
                seq![McuCommand::Lux],
            ),
            (Option::None, Option::Some(Sensor::Am2320)) => Option::Some(
                seq![McuCommand::Am2320Humidity, McuCommand::Am2320Temperature],
            ),
            (Option::None, Option::Some(Sensor::Ds18x20)) => Option::Some(
                seq![McuCommand::Ds18x20Temperature],
            ),
            (Option::None, Option::Some(Sensor::Lux)) => Option::Some(
                seq![McuCommand::Lux],
            ),
            _ => Option::None,
        }
    }

    /// Turns the two optional filters into the ordered, deduplicated command
    /// list the engine runs; a query naming both filters at once is invalid.
    pub fn parse(
        reading_type: Option<ReadingType>,
        sensor: Option<Sensor>,
    ) -> (r: Result<Vec<McuCommand>, String>)
        ensures
            r is Ok <==> Self::spec_selection(reading_type, sensor) is Some,
            r is Ok ==> r->Ok_0@ == Self::spec_selection(reading_type, sensor)->Some_0,
            r is Err ==> r->Err_0@ == "invalid query"@,
    {
        match (reading_type, sensor) {
            (Option::None, Option::None) => {
                let v = vec![
                    McuCommand::Am2320Humidity,
                    McuCommand::Am2320Temperature,
                    McuCommand::Ds18x20Temperature,
                    McuCommand::Lux,
                ];
                assert(v@ =~= Self::spec_selection(reading_type, sensor)->Some_0);
                Ok(v)
            },
            (Option::Some(ReadingType::Temperature), Option::None) => {
                let v = vec![McuCommand::Am2320Temperature, McuCommand::Ds18x20Temperature];
                assert(v@ =~= Self::spec_selection(reading_type, sensor)->Some_0);
                Ok(v)
            },
            (Option::Some(ReadingType::Humidity), Option::None) => {
                let v = vec![McuCommand::Am2320Humidity];
                assert(v@ =~= Self::spec_selection(reading_type, sensor)->Some_0);
                Ok(v)
            },
            (Option::Some(ReadingType::Lux), Option::None) => {
                let v = vec![McuCommand::Lux];
                assert(v@ =~= Self::spec_selection(reading_type, sensor)->Some_0);
                Ok(v)
            },
            (Option::None, Option::Some(Sensor::Am2320)) => {
                let v = vec![McuCommand::Am2320Humidity, McuCommand::Am2320Temperature];
                assert(v@ =~= Self::spec_selection(reading_type, sensor)->Some_0);
                Ok(v)
            },
            (Option::None, Option::Some(Sensor::Ds18x20)) => {
                let v = vec![McuCommand::Ds18x20Temperature];
                assert(v@ =~= Self::spec_selection(reading_type, sensor)->Some_0);
                Ok(v)
            },
            (Option::None, Option::Some(Sensor::Lux)) => {
                let v = vec![McuCommand::Lux];
                assert(v@ =~= Self::spec_selection(reading_type, sensor)->Some_0);
                Ok(v)
            },
            (Option::Some(_), Option::Some(_)) => Err(String::from_str("invalid query")),
        }
    }
}

} // verus!
