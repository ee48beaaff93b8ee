//! Closed enumerations of protocol value domains, each variant mapped to its
//! canonical one-character wire code.

use vstd::prelude::*;

verus! {

/// A closed value domain with a canonical one-character wire code.
pub trait FixEnum {
    /// The wire code of this variant.
    spec fn spec_value(&self) -> char;

    fn value(&self) -> (c: char)
        ensures
            c == self.spec_value(),
    ;
}

#[allow(non_camel_case_types)]
pub enum EncryptMethod {
    NONE,
    PKCS,
    DES,
    PkcsDes,
    PGP_DES,
    PGP_DES_MD5,
    PEM_DES_MD5,
}

impl FixEnum for EncryptMethod {
    open spec fn spec_value(&self) -> char {
        match self {
            EncryptMethod::NONE => '0',
            EncryptMethod::PKCS => '1',
            EncryptMethod::DES => '2',
            EncryptMethod::PkcsDes => '3',
            EncryptMethod::PGP_DES => '4',
            EncryptMethod::PGP_DES_MD5 => '5',
            EncryptMethod::PEM_DES_MD5 => '6',
        }
    }

    fn value(&self) -> (c: char) {
        match self {
            EncryptMethod::NONE => '0',
            EncryptMethod::PKCS => '1',
            EncryptMethod::DES => '2',
            EncryptMethod::PkcsDes => '3',
            EncryptMethod::PGP_DES => '4',
            EncryptMethod::PGP_DES_MD5 => '5',
            EncryptMethod::PEM_DES_MD5 => '6',
        }
    }
}

pub enum MsgType {
    HeartBeat,
    TestRequest,
    ResendRequest,
    Reject,
    SequenceReset,
    Logout,
    IndicationOfInterest,
    Advertistment,
    ExecutionReport,
    OrderCancelReject,
    Logon,
    News,
    Email,
    NewOrderSingle,
    NewOrderList,
    OrderCancelRequest,
    OrderCancelReplaceRequest,
    OrderStatusRequest,
    Allocation,
    ListCancelRequest,
    ListExecute,
    ListStatusRequest,
    ListStatus,
    AllocationAck,
    DontKnowTrade,
    QuoteRequest,
    Quote,
    SettlementInstructions,
    MarketDataRequest,
    MarketDataSnapshotFullRefresh,
    MarketDataIncrementalRefresh,
    MarketDataRequestReject,
    QuoteCancel,
    QuoteStatusRequest,
    QuoteAcknowledgement,
    SecurityDefinitionRequest,
    SecurityDefinition,
    SecurityStatusRequest,
    SecurityStatus,
    TradingSessionStatusRequest,
    TradingSessionStatus,
    MassQuote,
    BusinessMessageReject,
    BidRequest,
    BidResponse,
    ListStrikePrice,
}

impl FixEnum for MsgType {
    open spec fn spec_value(&self) -> char {
        match self {
            MsgType::HeartBeat => '0',
            MsgType::TestRequest => '1',
            MsgType::ResendRequest => '2',
            MsgType::Reject => '3',
            MsgType::SequenceReset => '4',
            MsgType::Logout => '5',
            MsgType::IndicationOfInterest => '6',
            MsgType::Advertistment => '7',
            MsgType::ExecutionReport => '8',
            MsgType::OrderCancelReject => '9',
            MsgType::Logon => 'A',
            MsgType::News => 'B',
            MsgType::Email => 'C',
            MsgType::NewOrderSingle => 'D',
            MsgType::NewOrderList => 'E',
            MsgType::OrderCancelRequest => 'F',
            MsgType::OrderCancelReplaceRequest => 'G',
            MsgType::OrderStatusRequest => 'H',
            MsgType::Allocation => 'J',
            MsgType::ListCancelRequest => 'K',
            MsgType::ListExecute => 'L',
            MsgType::ListStatusRequest => 'M',
            MsgType::ListStatus => 'N',
            MsgType::AllocationAck => 'P',
            MsgType::DontKnowTrade => 'Q',
            MsgType::QuoteRequest => 'R',
            MsgType::Quote => 'S',
            MsgType::SettlementInstructions => 'T',
            MsgType::MarketDataRequest => 'V',
            MsgType::MarketDataSnapshotFullRefresh => 'W',
            MsgType::MarketDataIncrementalRefresh => 'X',
            MsgType::MarketDataRequestReject => 'Y',
            MsgType::QuoteCancel => 'Z',
            MsgType::QuoteStatusRequest => 'a',
            MsgType::QuoteAcknowledgement => 'b',
            MsgType::SecurityDefinitionRequest => 'c',
            MsgType::SecurityDefinition => 'd',
            MsgType::SecurityStatusRequest => 'e',
            MsgType::SecurityStatus => 'f',
            MsgType::TradingSessionStatusRequest => 'g',
            MsgType::TradingSessionStatus => 'h',
            MsgType::MassQuote => 'i',
            MsgType::BusinessMessageReject => 'j',
            MsgType::BidRequest => 'k',
            MsgType::BidResponse => 'l',
            MsgType::ListStrikePrice => 'm',
        }
    }

    fn value(&self) -> (c: char) {
        match self {
            MsgType::HeartBeat => '0',
            MsgType::TestRequest => '1',
            MsgType::ResendRequest => '2',
            MsgType::Reject => '3',
            MsgType::SequenceReset => '4',
            MsgType::Logout => '5',
            MsgType::IndicationOfInterest => '6',
            MsgType::Advertistment => '7',
            MsgType::ExecutionReport => '8',
            MsgType::OrderCancelReject => '9',
            MsgType::Logon => 'A',
            MsgType::News => 'B',
            MsgType::Email => 'C',
            MsgType::NewOrderSingle => 'D',
            MsgType::NewOrderList => 'E',
            MsgType::OrderCancelRequest => 'F',
            MsgType::OrderCancelReplaceRequest => 'G',
            MsgType::OrderStatusRequest => 'H',
            MsgType::Allocation => 'J',
            MsgType::ListCancelRequest => 'K',
            MsgType::ListExecute => 'L',
            MsgType::ListStatusRequest => 'M',
            MsgType::ListStatus => 'N',
            MsgType::AllocationAck => 'P',
            MsgType::DontKnowTrade => 'Q',
            MsgType::QuoteRequest => 'R',
            MsgType::Quote => 'S',
            MsgType::SettlementInstructions => 'T',
            MsgType::MarketDataRequest => 'V',
            MsgType::MarketDataSnapshotFullRefresh => 'W',
            MsgType::MarketDataIncrementalRefresh => 'X',
            MsgType::MarketDataRequestReject => 'Y',
            MsgType::QuoteCancel => 'Z',
            MsgType::QuoteStatusRequest => 'a',
            MsgType::QuoteAcknowledgement => 'b',
            MsgType::SecurityDefinitionRequest => 'c',
            MsgType::SecurityDefinition => 'd',
            MsgType::SecurityStatusRequest => 'e',
            MsgType::SecurityStatus => 'f',
            MsgType::TradingSessionStatusRequest => 'g',
            MsgType::TradingSessionStatus => 'h',
            MsgType::MassQuote => 'i',
            MsgType::BusinessMessageReject => 'j',
            MsgType::BidRequest => 'k',
            MsgType::BidResponse => 'l',
            MsgType::ListStrikePrice => 'm',
        }
    }
}

} // verus!
