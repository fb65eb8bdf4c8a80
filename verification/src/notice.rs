use vstd::prelude::*;

use crate::number::{decimal_text, write_number};

verus! {

/// Something to tell the user.
#[derive(Debug, Clone, Copy, PartialEq, Eq)]
pub enum Notice<'a> {
    /// No image is made for the sector size of the device.
    OddSectorSize { sector_size: u32, device: &'a String },
    /// The image is not verified.
    SignatureSkipped,
    /// The partition table is left as the failed installation made it.
    TablePreserved,
    /// The installation is done.
    Complete,
}

pub open spec fn notice_text(notice: Notice) -> Seq<char> {
    match notice {
        Notice::OddSectorSize { sector_size, device } => "Found non-standard sector size "@
            + decimal_text(sector_size as nat) + " for "@ + device@
            + ", assuming 512b-compatible"@,
        Notice::SignatureSkipped => "Signature not found; skipping verification as requested"@,
        Notice::TablePreserved => "Preserving partition table as requested"@,
        Notice::Complete => "Install complete."@,
    }
}

impl<'a> Notice<'a> {
    /// How the notice is put to the user.
    pub fn text(&self) -> (text: String)
        ensures
            text@ == notice_text(*self),
    {
        match self {
            Notice::OddSectorSize { sector_size, device } => {
                "Found non-standard sector size ".to_owned().concat(
                    write_number(*sector_size as u64).as_str(),
                ).concat(" for ").concat(device.as_str()).concat(", assuming 512b-compatible")
            },
            Notice::SignatureSkipped => {
                "Signature not found; skipping verification as requested".to_owned()
            },
            Notice::TablePreserved => "Preserving partition table as requested".to_owned(),
            Notice::Complete => "Install complete.".to_owned(),
        }
    }
}

/// Every notice has its words. A sector size is given in full, and so is the device.
pub proof fn law_notices_have_their_words<'a>(sector_size: u32, device: &'a String)
    ensures
        notice_text(Notice::OddSectorSize { sector_size, device })
            == "Found non-standard sector size "@ + decimal_text(sector_size as nat) + " for "@
            + device@ + ", assuming 512b-compatible"@,
        notice_text(Notice::SignatureSkipped)
            == "Signature not found; skipping verification as requested"@,
        notice_text(Notice::TablePreserved) == "Preserving partition table as requested"@,
        notice_text(Notice::Complete) == "Install complete."@,
{
}

} // verus!
