//! Column identities for the address table view.
//!
//! The address records themselves, their import and their map display
//! live with outside toolkits; the engine's side only names the columns a
//! table view shows and maps a column index back to its identity.

use vstd::prelude::*;

verus! {

/// The columns of the address table.
#[derive(Debug, Copy, Clone, PartialEq, Eq, Structural)]
pub enum AddressColumns {
    /// The full address label.
    Label,
    /// The street number.
    Number,
    /// The directional prefix.
    Directional,
    /// The street name.
    StreetName,
    /// The street type.
    StreetType,
    /// The subaddress type.
    SubaddressType,
    /// The subaddress identifier.
    SubaddressId,
    /// The postal code.
    Zip,
    /// The address status.
    Status,
}

impl Default for AddressColumns {
    fn default() -> (r: Self)
        ensures
            r == AddressColumns::Label,
    {
        AddressColumns::Label
    }
}

impl AddressColumns {
    /// Display label of the column.
    pub open spec fn spec_label(self) -> Seq<char> {
        match self {
            AddressColumns::Label => "Label"@,
            AddressColumns::Number => "Number"@,
            AddressColumns::Directional => "Directional Prefix"@,
            AddressColumns::StreetName => "Street Name"@,
            AddressColumns::StreetType => "Street Type"@,
            AddressColumns::SubaddressType => "Subaddress Type"@,
            AddressColumns::SubaddressId => "Subaddress ID"@,
            AddressColumns::Zip => "Zip"@,
            AddressColumns::Status => "Status"@,
        }
    }

    /// Display label of the column.
    pub fn label(&self) -> (r: String)
        ensures
            r@ == self.spec_label(),
    {
        match self {
            AddressColumns::Label => "Label".to_owned(),
            AddressColumns::Number => "Number".to_owned(),
            AddressColumns::Directional => "Directional Prefix".to_owned(),
            AddressColumns::StreetName => "Street Name".to_owned(),
            AddressColumns::StreetType => "Street Type".to_owned(),
            AddressColumns::SubaddressType => "Subaddress Type".to_owned(),
            AddressColumns::SubaddressId => "Subaddress ID".to_owned(),
            AddressColumns::Zip => "Zip".to_owned(),
            AddressColumns::Status => "Status".to_owned(),
        }
    }

    /// The column at a table position, in display order.
    pub open spec fn spec_from_index(index: usize) -> Option<AddressColumns> {
        if index == 0 {
            Some(AddressColumns::Label)
        } else if index == 1 {
            Some(AddressColumns::Number)
        } else if index == 2 {
            Some(AddressColumns::Directional)
        } else if index == 3 {
            Some(AddressColumns::StreetName)
        } else if index == 4 {
            Some(AddressColumns::StreetType)
        } else if index == 5 {
            Some(AddressColumns::SubaddressType)
        } else if index == 6 {
            Some(AddressColumns::SubaddressId)
        } else if index == 7 {
            Some(AddressColumns::Zip)
        } else if index == 8 {
            Some(AddressColumns::Status)
        } else {
            None
        }
    }

    /// The column at a table position, if the position names one.
    pub fn from_index(index: usize) -> (r: Option<AddressColumns>)
        ensures
            r == AddressColumns::spec_from_index(index),
    {
        match index {
            0 => Some(AddressColumns::Label),
            1 => Some(AddressColumns::Number),
            2 => Some(AddressColumns::Directional),
            3 => Some(AddressColumns::StreetName),
            4 => Some(AddressColumns::StreetType),
            5 => Some(AddressColumns::SubaddressType),
            6 => Some(AddressColumns::SubaddressId),
            7 => Some(AddressColumns::Zip),
            8 => Some(AddressColumns::Status),
            _ => None,
        }
    }

    /// The column headers, in display order.
    pub fn names() -> (r: Vec<String>)
        ensures
            r@.len() == 9,
            forall|k: int|
                0 <= k < 9 ==> (#[trigger] r@[k])@ == AddressColumns::spec_from_index(
                    k as usize,
                )->Some_0.spec_label(),
    {
        let mut out: Vec<String> = Vec::new();
        out.push("Label".to_owned());
        out.push("Number".to_owned());
        out.push("Directional Prefix".to_owned());
        out.push("Street Name".to_owned());
        out.push("Street Type".to_owned());
        out.push("Subaddress Type".to_owned());
        out.push("Subaddress ID".to_owned());
        out.push("Zip".to_owned());
        out.push("Status".to_owned());
        out
    }
}

} // verus!
