use vstd::prelude::*;
use vstd::string::StringExecFns;

verus! {

/// Physical sensor a caller may restrict a query to.
#[derive(Copy, Clone, PartialEq, Eq, Structural, Debug)]
pub enum Sensor {
    Am2320,
    Ds18x20,
    Lux,
}

/// Kind of measurement a caller may restrict a query to.
#[derive(Copy, Clone, PartialEq, Eq, Structural, Debug)]
pub enum ReadingType {
    Temperature,
    Humidity,
    Lux,
}

/// Relies on `str` equality: `==` on string slices compares their characters.
#[verifier::external_body]
pub(crate) fn str_eq(a: &str, b: &str) -> (r: bool)
    ensures
        r == (a@ == b@),
{
    a == b
}

impl Sensor {
    /// Parses a sensor filter name as the caller supplies it.
    pub fn try_from(value: String) -> (r: Result<Sensor, String>)
        ensures
            r is Ok <==> (value@ == "am2320"@ || value@ == "ds18x20"@ || value@ == "lux"@),
            value@ == "am2320"@ ==> r == Ok::<Sensor, String>(Sensor::Am2320),
            value@ == "ds18x20"@ ==> r == Ok::<Sensor, String>(Sensor::Ds18x20),
            value@ == "lux"@ ==> r == Ok::<Sensor, String>(Sensor::Lux),
            r is Err ==> r->Err_0@ == "Invalid sensor "@ + value@
                + ", expected one of am2320, ds18x20, lux"@,
    {
        proof {
            reveal_strlit("am2320");
            reveal_strlit("ds18x20");
            reveal_strlit("lux");
            assert("am2320"@.len() == 6);
            assert("ds18x20"@.len() == 7);
            assert("lux"@.len() == 3);
        }
        if str_eq(value.as_str(), "am2320") {
            Ok(Sensor::Am2320)
        } else if str_eq(value.as_str(), "ds18x20") {
            Ok(Sensor::Ds18x20)
        } else if str_eq(value.as_str(), "lux") {
            Ok(Sensor::Lux)
        } else {
            let msg = String::from_str("Invalid sensor ").concat(value.as_str()).concat(
                ", expected one of am2320, ds18x20, lux",
            );
            Err(msg)
        }
    }
}

impl ReadingType {
    /// Parses a reading-type filter name as the caller supplies it.
    pub fn try_from(value: String) -> (r: Result<ReadingType, String>)
        ensures
            r is Ok <==> (value@ == "temperature"@ || value@ == "humidity"@
                || value@ == "lux"@),
            value@ == "temperature"@ ==> r == Ok::<ReadingType, String>(ReadingType::Temperature),
            value@ == "humidity"@ ==> r == Ok::<ReadingType, String>(ReadingType::Humidity),
            value@ == "lux"@ ==> r == Ok::<ReadingType, String>(ReadingType::Lux),
            r is Err ==> r->Err_0@ == "Invalid reading_type "@ + value@
                + ", expected one of temperature/temp, humidity/hum, lux"@,
    {
        proof {
            reveal_strlit("temperature");
            reveal_strlit("humidity");
            reveal_strlit("lux");
            assert("temperature"@.len() == 11);
            assert("humidity"@.len() == 8);
            assert("lux"@.len() == 3);
        }
        if str_eq(value.as_str(), "temperature") {
            Ok(ReadingType::Temperature)
        } else if str_eq(value.as_str(), "humidity") {
            Ok(ReadingType::Humidity)
        } else if str_eq(value.as_str(), "lux") {
            Ok(ReadingType::Lux)
        } else {
            let msg = String::from_str("Invalid reading_type ").concat(value.as_str()).concat(
                ", expected one of temperature/temp, humidity/hum, lux",
            );
            Err(msg)
        }
    }
}

/// Caller-facing invocation settings: the serial device to drive, the two
/// optional filters narrowing which commands run, and whether to transmit.
#[derive(Debug)]
pub struct Args {
    pub port: String,
    pub reading_type: Option<String>,
    pub just_sensor: Option<String>,
    pub send: bool,
}

} // verus!
