use vstd::prelude::*;

verus! {

/// Hash algorithm of an exported account.
#[derive(Clone, Copy, PartialEq, Eq, Structural, Debug)]
pub enum Algorithm {
    Unspecified,
    Sha1,
    Sha256,
    Sha512,
    Md5,
}

/// Number of digits of the generated codes.
#[derive(Clone, Copy, PartialEq, Eq, Structural, Debug)]
pub enum DigitCount {
    Unspecified,
    Six,
    Eight,
}

/// Counter based or time based one-time passwords.
#[derive(Clone, Copy, PartialEq, Eq, Structural, Debug)]
pub enum OtpType {
    Unspecified,
    Hotp,
    Totp,
}

/// One account of a migration batch.
///
/// `counter` holds the two's complement bits of the signed 64-bit counter.
#[derive(Clone, Debug)]
pub struct OtpParameters {
    pub secret: Vec<u8>,
    pub name: String,
    pub issuer: String,
    pub algorithm: Algorithm,
    pub digits: DigitCount,
    pub otp_type: OtpType,
    pub counter: u64,
}

/// The mathematical value of an account record.
pub struct RecordView {
    pub secret: Seq<u8>,
    pub name: Seq<char>,
    pub issuer: Seq<char>,
    pub algorithm: Algorithm,
    pub digits: DigitCount,
    pub otp_type: OtpType,
    pub counter: u64,
}

impl View for OtpParameters {
    type V = RecordView;

    open spec fn view(&self) -> RecordView {
        RecordView {
            secret: self.secret@,
            name: self.name@,
            issuer: self.issuer@,
            algorithm: self.algorithm,
            digits: self.digits,
            otp_type: self.otp_type,
            counter: self.counter,
        }
    }
}

/// The record that an empty sub-message decodes to.
pub open spec fn empty_record() -> RecordView {
    RecordView {
        secret: Seq::empty(),
        name: Seq::empty(),
        issuer: Seq::empty(),
        algorithm: Algorithm::Unspecified,
        digits: DigitCount::Unspecified,
        otp_type: OtpType::Unspecified,
        counter: 0,
    }
}

pub open spec fn records_view(v: Seq<OtpParameters>) -> Seq<RecordView> {
    v.map_values(|p: OtpParameters| p@)
}

/// Enum values are 32-bit integers on the wire; unknown values read as unspecified.
pub open spec fn algorithm_of(v: u64) -> Algorithm {
    let x = v % 0x1_0000_0000;
    if x == 1 {
        Algorithm::Sha1
    } else if x == 2 {
        Algorithm::Sha256
    } else if x == 3 {
        Algorithm::Sha512
    } else if x == 4 {
        Algorithm::Md5
    } else {
        Algorithm::Unspecified
    }
}

pub open spec fn digits_of(v: u64) -> DigitCount {
    let x = v % 0x1_0000_0000;
    if x == 1 {
        DigitCount::Six
    } else if x == 2 {
        DigitCount::Eight
    } else {
        DigitCount::Unspecified
    }
}

pub open spec fn otp_type_of(v: u64) -> OtpType {
    let x = v % 0x1_0000_0000;
    if x == 1 {
        OtpType::Hotp
    } else if x == 2 {
        OtpType::Totp
    } else {
        OtpType::Unspecified
    }
}

pub fn algorithm_from_wire(v: u64) -> (r: Algorithm)
    ensures
        r == algorithm_of(v),
{
    let x = v % 0x1_0000_0000;
    if x == 1 {
        Algorithm::Sha1
    } else if x == 2 {
        Algorithm::Sha256
    } else if x == 3 {
        Algorithm::Sha512
    } else if x == 4 {
        Algorithm::Md5
    } else {
        Algorithm::Unspecified
    }
}

pub fn digits_from_wire(v: u64) -> (r: DigitCount)
    ensures
        r == digits_of(v),
{
    let x = v % 0x1_0000_0000;
    if x == 1 {
        DigitCount::Six
    } else if x == 2 {
        DigitCount::Eight
    } else {
        DigitCount::Unspecified
    }
}

pub fn otp_type_from_wire(v: u64) -> (r: OtpType)
    ensures
        r == otp_type_of(v),
{
    let x = v % 0x1_0000_0000;
    if x == 1 {
        OtpType::Hotp
    } else if x == 2 {
        OtpType::Totp
    } else {
        OtpType::Unspecified
    }
}

} // verus!
