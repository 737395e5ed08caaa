use vstd::prelude::*;
use crate::receipts::{appointment_receipt_message, signed_by, AppointmentReceipt};
use crate::tower::TowerId;

verus! {

/// A generic answer of a tower: the expected payload or an API error.
#[derive(Debug)]
pub enum ApiResponse<T> {
    Response(T),
    Error(ApiError),
}

/// An error reported by a tower's API.
#[derive(Debug, Clone, PartialEq, Eq)]
pub struct ApiError {
    pub error: String,
    pub error_code: u8,
}

/// Errors of an appointment submission.
#[derive(Debug)]
pub enum AddAppointmentError {
    RequestError(RequestError),
    ApiError(ApiError),
    SignatureError,
    ConversionError(String),
    Unexpected,
}

/// Errors of a request sent to a tower.
#[derive(Debug, Clone, PartialEq, Eq)]
pub enum RequestError {
    ConnectionError(String),
    DeserializeError(String),
    Unexpected(String),
}

impl RequestError {
    /// Whether the tower could not be reached at all.
    pub fn is_connection(&self) -> (r: bool)
        ensures
            r == (self is ConnectionError),
    {
        matches!(self, RequestError::ConnectionError(_))
    }
}

/// The error for a request that could not be sent: a refused connection or
/// a timeout means the tower is unreachable; anything else is unexpected.
pub fn request_failure(is_connect: bool, is_timeout: bool) -> (r: RequestError)
    ensures
        (r is ConnectionError) == (is_connect || is_timeout),
        (r is Unexpected) == !(is_connect || is_timeout),
{
    if is_connect || is_timeout {
        RequestError::ConnectionError("Cannot connect to the tower. Connection refused".to_owned())
    } else {
        RequestError::Unexpected("Unexpected error ocurred (see logs for more info)".to_owned())
    }
}

/// What a tower answers to a registration request.
#[derive(Debug)]
pub struct RegisterResponse {
    pub available_slots: u32,
    pub subscription_start: u32,
    pub subscription_expiry: u32,
    pub subscription_signature: String,
}

/// What a tower answers to an accepted appointment.
#[derive(Debug)]
pub struct AddAppointmentResponse {
    pub locator: Vec<u8>,
    pub start_block: u32,
    pub signature: String,
    pub available_slots: u32,
    pub subscription_expiry: u32,
}

/// Checks a tower's answer to the submission of an appointment signed with
/// `signature`: the receipt is only trusted if its signature recovers to
/// `tower_id`; it then gives the slots left at the tower.
pub fn add_update_appointment(
    tower_id: &TowerId,
    signature: &str,
    response: Result<ApiResponse<AddAppointmentResponse>, AddAppointmentError>,
) -> (r: Result<(u32, AppointmentReceipt), AddAppointmentError>)
    ensures
        match response {
            Err(e) => r == Err::<(u32, AppointmentReceipt), AddAppointmentError>(e),
            Ok(ApiResponse::Error(e)) => r == Err::<(u32, AppointmentReceipt), AddAppointmentError>(
                AddAppointmentError::ApiError(e),
            ),
            Ok(ApiResponse::Response(a)) => if signed_by(
                appointment_receipt_message(signature@, a.start_block),
                a.signature@,
                tower_id@,
            ) {
                r matches Ok(p) && p.0 == a.available_slots && p.1.user_signature@ == signature@
                    && p.1.start_block == a.start_block && p.1.signature@ == a.signature@
            } else {
                r == Err::<(u32, AppointmentReceipt), AddAppointmentError>(
                    AddAppointmentError::SignatureError,
                )
            },
        },
{
    match response {
        Err(e) => Err(e),
        Ok(ApiResponse::Error(e)) => Err(AddAppointmentError::ApiError(e)),
        Ok(ApiResponse::Response(a)) => {
            let receipt = AppointmentReceipt {
                user_signature: signature.to_owned(),
                start_block: a.start_block,
                signature: a.signature,
            };
            if receipt.verify(tower_id) {
                Ok((a.available_slots, receipt))
            } else {
                Err(AddAppointmentError::SignatureError)
            }
        },
    }
}

} // verus!
