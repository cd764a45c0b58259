//! The numbers that stand for the enumerations on the wire.

use crate::proto::{
    LdapDerefAliases, LdapModifyType, LdapResultCode, LdapSearchScope, SyncRequestMode,
    SyncStateValue,
};
use vstd::prelude::*;

verus! {

/// An optional value as a result whose error says nothing.
pub open spec fn ok_or_unit<T>(o: Option<T>) -> Result<T, ()> {
    match o {
        Some(v) => Ok(v),
        None => Err(()),
    }
}

/// Turns a missing value into an error.
pub fn need<T>(o: Option<T>) -> (r: Result<T, ()>)
    ensures
        r == ok_or_unit(o),
{
    match o {
        Some(v) => Ok(v),
        None => Err(()),
    }
}

impl LdapResultCode {
    /// The number of a result code on the wire.
    pub open spec fn spec_code(self) -> i64 {
        match self {
            LdapResultCode::Success => 0,
            LdapResultCode::OperationsError => 1,
            LdapResultCode::ProtocolError => 2,
            LdapResultCode::TimeLimitExceeded => 3,
            LdapResultCode::SizeLimitExceeded => 4,
            LdapResultCode::CompareFalse => 5,
            LdapResultCode::CompareTrue => 6,
            LdapResultCode::AuthMethodNotSupported => 7,
            LdapResultCode::StrongerAuthRequired => 8,
            LdapResultCode::Referral => 10,
            LdapResultCode::AdminLimitExceeded => 11,
            LdapResultCode::UnavailableCriticalExtension => 12,
            LdapResultCode::ConfidentialityRequired => 13,
            LdapResultCode::SaslBindInProgress => 14,
            LdapResultCode::NoSuchAttribute => 16,
            LdapResultCode::UndefinedAttributeType => 17,
            LdapResultCode::InappropriateMatching => 18,
            LdapResultCode::ConstraintViolation => 19,
            LdapResultCode::AttributeOrValueExists => 20,
            LdapResultCode::InvalidAttributeSyntax => 21,
            LdapResultCode::NoSuchObject => 32,
            LdapResultCode::AliasProblem => 33,
            LdapResultCode::InvalidDNSyntax => 34,
            LdapResultCode::AliasDereferencingProblem => 36,
            LdapResultCode::InappropriateAuthentication => 48,
            LdapResultCode::InvalidCredentials => 49,
            LdapResultCode::InsufficentAccessRights => 50,
            LdapResultCode::Busy => 51,
            LdapResultCode::Unavailable => 52,
            LdapResultCode::UnwillingToPerform => 53,
            LdapResultCode::LoopDetect => 54,
            LdapResultCode::NamingViolation => 64,
            LdapResultCode::ObjectClassViolation => 65,
            LdapResultCode::NotAllowedOnNonLeaf => 66,
            LdapResultCode::NotALlowedOnRDN => 67,
            LdapResultCode::EntryAlreadyExists => 68,
            LdapResultCode::ObjectClassModsProhibited => 69,
            LdapResultCode::AffectsMultipleDSAs => 71,
            LdapResultCode::Other => 80,
            LdapResultCode::EsyncRefreshRequired => 4096,
        }
    }

    /// The value that a number stands for, if it stands for one.
    pub open spec fn spec_try_from(value: i64) -> Option<LdapResultCode> {
        if value == 0 {
            Some(LdapResultCode::Success)
        } else if value == 1 {
            Some(LdapResultCode::OperationsError)
        } else if value == 2 {
            Some(LdapResultCode::ProtocolError)
        } else if value == 3 {
            Some(LdapResultCode::TimeLimitExceeded)
        } else if value == 4 {
            Some(LdapResultCode::SizeLimitExceeded)
        } else if value == 5 {
            Some(LdapResultCode::CompareFalse)
        } else if value == 6 {
            Some(LdapResultCode::CompareTrue)
        } else if value == 7 {
            Some(LdapResultCode::AuthMethodNotSupported)
        } else if value == 8 {
            Some(LdapResultCode::StrongerAuthRequired)
        } else if value == 10 {
            Some(LdapResultCode::Referral)
        } else if value == 11 {
            Some(LdapResultCode::AdminLimitExceeded)
        } else if value == 12 {
            Some(LdapResultCode::UnavailableCriticalExtension)
        } else if value == 13 {
            Some(LdapResultCode::ConfidentialityRequired)
        } else if value == 14 {
            Some(LdapResultCode::SaslBindInProgress)
        } else if value == 16 {
            Some(LdapResultCode::NoSuchAttribute)
        } else if value == 17 {
            Some(LdapResultCode::UndefinedAttributeType)
        } else if value == 18 {
            Some(LdapResultCode::InappropriateMatching)
        } else if value == 19 {
            Some(LdapResultCode::ConstraintViolation)
        } else if value == 20 {
            Some(LdapResultCode::AttributeOrValueExists)
        } else if value == 21 {
            Some(LdapResultCode::InvalidAttributeSyntax)
        } else if value == 32 {
            Some(LdapResultCode::NoSuchObject)
        } else if value == 33 {
            Some(LdapResultCode::AliasProblem)
        } else if value == 34 {
            Some(LdapResultCode::InvalidDNSyntax)
        } else if value == 36 {
            Some(LdapResultCode::AliasDereferencingProblem)
        } else if value == 48 {
            Some(LdapResultCode::InappropriateAuthentication)
        } else if value == 49 {
            Some(LdapResultCode::InvalidCredentials)
        } else if value == 50 {
            Some(LdapResultCode::InsufficentAccessRights)
        } else if value == 51 {
            Some(LdapResultCode::Busy)
        } else if value == 52 {
            Some(LdapResultCode::Unavailable)
        } else if value == 53 {
            Some(LdapResultCode::UnwillingToPerform)
        } else if value == 54 {
            Some(LdapResultCode::LoopDetect)
        } else if value == 64 {
            Some(LdapResultCode::NamingViolation)
        } else if value == 65 {
            Some(LdapResultCode::ObjectClassViolation)
        } else if value == 66 {
            Some(LdapResultCode::NotAllowedOnNonLeaf)
        } else if value == 67 {
            Some(LdapResultCode::NotALlowedOnRDN)
        } else if value == 68 {
            Some(LdapResultCode::EntryAlreadyExists)
        } else if value == 69 {
            Some(LdapResultCode::ObjectClassModsProhibited)
        } else if value == 71 {
            Some(LdapResultCode::AffectsMultipleDSAs)
        } else if value == 80 {
            Some(LdapResultCode::Other)
        } else if value == 4096 {
            Some(LdapResultCode::EsyncRefreshRequired)
        } else {
            None
        }
    }

    /// The number of a result code on the wire.
    pub fn code(self) -> (r: i64)
        ensures
            r == self.spec_code(),
    {
        match self {
            LdapResultCode::Success => 0,
            LdapResultCode::OperationsError => 1,
            LdapResultCode::ProtocolError => 2,
            LdapResultCode::TimeLimitExceeded => 3,
            LdapResultCode::SizeLimitExceeded => 4,
            LdapResultCode::CompareFalse => 5,
            LdapResultCode::CompareTrue => 6,
            LdapResultCode::AuthMethodNotSupported => 7,
            LdapResultCode::StrongerAuthRequired => 8,
            LdapResultCode::Referral => 10,
            LdapResultCode::AdminLimitExceeded => 11,
            LdapResultCode::UnavailableCriticalExtension => 12,
            LdapResultCode::ConfidentialityRequired => 13,
            LdapResultCode::SaslBindInProgress => 14,
            LdapResultCode::NoSuchAttribute => 16,
            LdapResultCode::UndefinedAttributeType => 17,
            LdapResultCode::InappropriateMatching => 18,
            LdapResultCode::ConstraintViolation => 19,
            LdapResultCode::AttributeOrValueExists => 20,
            LdapResultCode::InvalidAttributeSyntax => 21,
            LdapResultCode::NoSuchObject => 32,
            LdapResultCode::AliasProblem => 33,
            LdapResultCode::InvalidDNSyntax => 34,
            LdapResultCode::AliasDereferencingProblem => 36,
            LdapResultCode::InappropriateAuthentication => 48,
            LdapResultCode::InvalidCredentials => 49,
            LdapResultCode::InsufficentAccessRights => 50,
            LdapResultCode::Busy => 51,
            LdapResultCode::Unavailable => 52,
            LdapResultCode::UnwillingToPerform => 53,
            LdapResultCode::LoopDetect => 54,
            LdapResultCode::NamingViolation => 64,
            LdapResultCode::ObjectClassViolation => 65,
            LdapResultCode::NotAllowedOnNonLeaf => 66,
            LdapResultCode::NotALlowedOnRDN => 67,
            LdapResultCode::EntryAlreadyExists => 68,
            LdapResultCode::ObjectClassModsProhibited => 69,
            LdapResultCode::AffectsMultipleDSAs => 71,
            LdapResultCode::Other => 80,
            LdapResultCode::EsyncRefreshRequired => 4096,
        }
    }

    /// The value that a number stands for; an error for any other number.
    pub fn try_from(value: i64) -> (r: Result<LdapResultCode, ()>)
        ensures
            r == ok_or_unit(LdapResultCode::spec_try_from(value)),
    {
        match value {
            0 => Ok(LdapResultCode::Success),
            1 => Ok(LdapResultCode::OperationsError),
            2 => Ok(LdapResultCode::ProtocolError),
            3 => Ok(LdapResultCode::TimeLimitExceeded),
            4 => Ok(LdapResultCode::SizeLimitExceeded),
            5 => Ok(LdapResultCode::CompareFalse),
            6 => Ok(LdapResultCode::CompareTrue),
            7 => Ok(LdapResultCode::AuthMethodNotSupported),
            8 => Ok(LdapResultCode::StrongerAuthRequired),
            10 => Ok(LdapResultCode::Referral),
            11 => Ok(LdapResultCode::AdminLimitExceeded),
            12 => Ok(LdapResultCode::UnavailableCriticalExtension),
            13 => Ok(LdapResultCode::ConfidentialityRequired),
            14 => Ok(LdapResultCode::SaslBindInProgress),
            16 => Ok(LdapResultCode::NoSuchAttribute),
            17 => Ok(LdapResultCode::UndefinedAttributeType),
            18 => Ok(LdapResultCode::InappropriateMatching),
            19 => Ok(LdapResultCode::ConstraintViolation),
            20 => Ok(LdapResultCode::AttributeOrValueExists),
            21 => Ok(LdapResultCode::InvalidAttributeSyntax),
            32 => Ok(LdapResultCode::NoSuchObject),
            33 => Ok(LdapResultCode::AliasProblem),
            34 => Ok(LdapResultCode::InvalidDNSyntax),
            36 => Ok(LdapResultCode::AliasDereferencingProblem),
            48 => Ok(LdapResultCode::InappropriateAuthentication),
            49 => Ok(LdapResultCode::InvalidCredentials),
            50 => Ok(LdapResultCode::InsufficentAccessRights),
            51 => Ok(LdapResultCode::Busy),
            52 => Ok(LdapResultCode::Unavailable),
            53 => Ok(LdapResultCode::UnwillingToPerform),
            54 => Ok(LdapResultCode::LoopDetect),
            64 => Ok(LdapResultCode::NamingViolation),
            65 => Ok(LdapResultCode::ObjectClassViolation),
            66 => Ok(LdapResultCode::NotAllowedOnNonLeaf),
            67 => Ok(LdapResultCode::NotALlowedOnRDN),
            68 => Ok(LdapResultCode::EntryAlreadyExists),
            69 => Ok(LdapResultCode::ObjectClassModsProhibited),
            71 => Ok(LdapResultCode::AffectsMultipleDSAs),
            80 => Ok(LdapResultCode::Other),
            4096 => Ok(LdapResultCode::EsyncRefreshRequired),
            _ => Err(()),
        }
    }

    /// A value's number stands for that value, and for no other.
    pub proof fn lemma_code_round_trip(self)
        ensures
            LdapResultCode::spec_try_from(self.spec_code()) == Some(self),
            0 <= self.spec_code() <= 4096,
    {
    }
}

impl LdapSearchScope {
    /// The number of a search scope on the wire.
    pub open spec fn spec_code(self) -> i64 {
        match self {
            LdapSearchScope::Base => 0,
            LdapSearchScope::OneLevel => 1,
            LdapSearchScope::Subtree => 2,
        }
    }

    /// The value that a number stands for, if it stands for one.
    pub open spec fn spec_try_from(value: i64) -> Option<LdapSearchScope> {
        if value == 0 {
            Some(LdapSearchScope::Base)
        } else if value == 1 {
            Some(LdapSearchScope::OneLevel)
        } else if value == 2 {
            Some(LdapSearchScope::Subtree)
        } else {
            None
        }
    }

    /// The number of a search scope on the wire.
    pub fn code(self) -> (r: i64)
        ensures
            r == self.spec_code(),
    {
        match self {
            LdapSearchScope::Base => 0,
            LdapSearchScope::OneLevel => 1,
            LdapSearchScope::Subtree => 2,
        }
    }

    /// The value that a number stands for; an error for any other number.
    pub fn try_from(value: i64) -> (r: Result<LdapSearchScope, ()>)
        ensures
            r == ok_or_unit(LdapSearchScope::spec_try_from(value)),
    {
        match value {
            0 => Ok(LdapSearchScope::Base),
            1 => Ok(LdapSearchScope::OneLevel),
            2 => Ok(LdapSearchScope::Subtree),
            _ => Err(()),
        }
    }

    /// A value's number stands for that value, and for no other.
    pub proof fn lemma_code_round_trip(self)
        ensures
            LdapSearchScope::spec_try_from(self.spec_code()) == Some(self),
            0 <= self.spec_code() <= 4096,
    {
    }
}

impl LdapDerefAliases {
    /// The number of an alias policy on the wire.
    pub open spec fn spec_code(self) -> i64 {
        match self {
            LdapDerefAliases::Never => 0,
            LdapDerefAliases::InSearching => 1,
            LdapDerefAliases::FindingBaseObj => 2,
            LdapDerefAliases::Always => 3,
        }
    }

    /// The value that a number stands for, if it stands for one.
    pub open spec fn spec_try_from(value: i64) -> Option<LdapDerefAliases> {
        if value == 0 {
            Some(LdapDerefAliases::Never)
        } else if value == 1 {
            Some(LdapDerefAliases::InSearching)
        } else if value == 2 {
            Some(LdapDerefAliases::FindingBaseObj)
        } else if value == 3 {
            Some(LdapDerefAliases::Always)
        } else {
            None
        }
    }

    /// The number of an alias policy on the wire.
    pub fn code(self) -> (r: i64)
        ensures
            r == self.spec_code(),
    {
        match self {
            LdapDerefAliases::Never => 0,
            LdapDerefAliases::InSearching => 1,
            LdapDerefAliases::FindingBaseObj => 2,
            LdapDerefAliases::Always => 3,
        }
    }

    /// The value that a number stands for; an error for any other number.
    pub fn try_from(value: i64) -> (r: Result<LdapDerefAliases, ()>)
        ensures
            r == ok_or_unit(LdapDerefAliases::spec_try_from(value)),
    {
        match value {
            0 => Ok(LdapDerefAliases::Never),
            1 => Ok(LdapDerefAliases::InSearching),
            2 => Ok(LdapDerefAliases::FindingBaseObj),
            3 => Ok(LdapDerefAliases::Always),
            _ => Err(()),
        }
    }

    /// A value's number stands for that value, and for no other.
    pub proof fn lemma_code_round_trip(self)
        ensures
            LdapDerefAliases::spec_try_from(self.spec_code()) == Some(self),
            0 <= self.spec_code() <= 4096,
    {
    }
}

impl LdapModifyType {
    /// The number of a kind of change on the wire.
    pub open spec fn spec_code(self) -> i64 {
        match self {
            LdapModifyType::Add => 0,
            LdapModifyType::Delete => 1,
            LdapModifyType::Replace => 2,
        }
    }

    /// The value that a number stands for, if it stands for one.
    pub open spec fn spec_try_from(value: i64) -> Option<LdapModifyType> {
        if value == 0 {
            Some(LdapModifyType::Add)
        } else if value == 1 {
            Some(LdapModifyType::Delete)
        } else if value == 2 {
            Some(LdapModifyType::Replace)
        } else {
            None
        }
    }

    /// The number of a kind of change on the wire.
    pub fn code(self) -> (r: i64)
        ensures
            r == self.spec_code(),
    {
        match self {
            LdapModifyType::Add => 0,
            LdapModifyType::Delete => 1,
            LdapModifyType::Replace => 2,
        }
    }

    /// The value that a number stands for; an error for any other number.
    pub fn try_from(value: i64) -> (r: Result<LdapModifyType, ()>)
        ensures
            r == ok_or_unit(LdapModifyType::spec_try_from(value)),
    {
        match value {
            0 => Ok(LdapModifyType::Add),
            1 => Ok(LdapModifyType::Delete),
            2 => Ok(LdapModifyType::Replace),
            _ => Err(()),
        }
    }

    /// A value's number stands for that value, and for no other.
    pub proof fn lemma_code_round_trip(self)
        ensures
            LdapModifyType::spec_try_from(self.spec_code()) == Some(self),
            0 <= self.spec_code() <= 4096,
    {
    }
}

impl SyncRequestMode {
    /// The number of a synchronization mode on the wire.
    pub open spec fn spec_code(self) -> i64 {
        match self {
            SyncRequestMode::RefreshOnly => 1,
            SyncRequestMode::RefreshAndPersist => 3,
        }
    }

    /// The value that a number stands for, if it stands for one.
    pub open spec fn spec_try_from(value: i64) -> Option<SyncRequestMode> {
        if value == 1 {
            Some(SyncRequestMode::RefreshOnly)
        } else if value == 3 {
            Some(SyncRequestMode::RefreshAndPersist)
        } else {
            None
        }
    }

    /// The number of a synchronization mode on the wire.
    pub fn code(self) -> (r: i64)
        ensures
            r == self.spec_code(),
    {
        match self {
            SyncRequestMode::RefreshOnly => 1,
            SyncRequestMode::RefreshAndPersist => 3,
        }
    }

    /// The value that a number stands for; an error for any other number.
    pub fn try_from(value: i64) -> (r: Result<SyncRequestMode, ()>)
        ensures
            r == ok_or_unit(SyncRequestMode::spec_try_from(value)),
    {
        match value {
            1 => Ok(SyncRequestMode::RefreshOnly),
            3 => Ok(SyncRequestMode::RefreshAndPersist),
            _ => Err(()),
        }
    }

    /// A value's number stands for that value, and for no other.
    pub proof fn lemma_code_round_trip(self)
        ensures
            SyncRequestMode::spec_try_from(self.spec_code()) == Some(self),
            0 <= self.spec_code() <= 4096,
    {
    }
}

impl SyncStateValue {
    /// The number of an entry state on the wire.
    pub open spec fn spec_code(self) -> i64 {
        match self {
            SyncStateValue::Present => 0,
            SyncStateValue::Add => 1,
            SyncStateValue::Modify => 2,
            SyncStateValue::Delete => 3,
        }
    }

    /// The value that a number stands for, if it stands for one.
    pub open spec fn spec_try_from(value: i64) -> Option<SyncStateValue> {
        if value == 0 {
            Some(SyncStateValue::Present)
        } else if value == 1 {
            Some(SyncStateValue::Add)
        } else if value == 2 {
            Some(SyncStateValue::Modify)
        } else if value == 3 {
            Some(SyncStateValue::Delete)
        } else {
            None
        }
    }

    /// The number of an entry state on the wire.
    pub fn code(self) -> (r: i64)
        ensures
            r == self.spec_code(),
    {
        match self {
            SyncStateValue::Present => 0,
            SyncStateValue::Add => 1,
            SyncStateValue::Modify => 2,
            SyncStateValue::Delete => 3,
        }
    }

    /// The value that a number stands for; an error for any other number.
    pub fn try_from(value: i64) -> (r: Result<SyncStateValue, ()>)
        ensures
            r == ok_or_unit(SyncStateValue::spec_try_from(value)),
    {
        match value {
            0 => Ok(SyncStateValue::Present),
            1 => Ok(SyncStateValue::Add),
            2 => Ok(SyncStateValue::Modify),
            3 => Ok(SyncStateValue::Delete),
            _ => Err(()),
        }
    }

    /// A value's number stands for that value, and for no other.
    pub proof fn lemma_code_round_trip(self)
        ensures
            SyncStateValue::spec_try_from(self.spec_code()) == Some(self),
            0 <= self.spec_code() <= 4096,
    {
    }
}

} // verus!
