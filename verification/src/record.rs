//! The record parsed from the upstream device's XML status response.

use vstd::prelude::*;

verus! {

/// The parsed upstream device response: the `value`, `control` and `Code`
/// attributes of the status document, kept verbatim as strings.
pub struct DeviceStatusRecord {
    pub value: String,
    pub control: String,
    pub code: String,
}

/// The mathematical view of a record: its three fields as character
/// sequences.
pub struct RecordView {
    pub value: Seq<char>,
    pub control: Seq<char>,
    pub code: Seq<char>,
}

impl View for DeviceStatusRecord {
    type V = RecordView;

    open spec fn view(&self) -> RecordView {
        RecordView { value: self.value@, control: self.control@, code: self.code@ }
    }
}

impl DeviceStatusRecord {
    /// Builds a record from its three fields.
    pub fn new(value: String, control: String, code: String) -> (r: DeviceStatusRecord)
        ensures
            r@ == (RecordView { value: value@, control: control@, code: code@ }),
    {
        DeviceStatusRecord { value, control, code }
    }
}

} // verus!
