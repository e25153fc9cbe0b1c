//! Downloads through WinHttp — part of Windows.
//!
//! Deliberately without a TLS library of our own: WinHttp uses the
//! system store, so it trusts exactly what Windows trusts. The WinHttp
//! calls live outside this crate; what a status means and what the
//! errors say is decided here.

use vstd::prelude::*;

use crate::text::{append_str, chars_of, dec_digits, push_decimal, string_from};

verus! {

/// The agent name sent with requests.
pub const USER_AGENT: &'static str = "Winsent";

/// The HTTPS port.
pub const HTTPS_PORT: u16 = 443u16;

/// Download errors — the messages go straight to the tester's console.
#[derive(Debug, Clone, PartialEq, Eq)]
pub enum HttpError {
    Connect(String),
    Http { status: u32 },
    Read(String),
}

/// The message of an error.
pub open spec fn message_spec(e: HttpError) -> Seq<char> {
    match e {
        HttpError::Connect(d) => "nepodařilo se spojit se serverem ("@ + d@ + ")"@,
        HttpError::Http { status } => if status == 404 {
            "soubor na serveru není (404) — vydavatel ho ještě nenahrál"@
        } else {
            "server odpověděl chybou "@ + dec_digits(status as nat)
        },
        HttpError::Read(d) => "přenos se přerušil ("@ + d@ + ")"@,
    }
}

impl HttpError {
    /// What the error says to the user.
    pub fn message(&self) -> (r: String)
        ensures
            r@ == message_spec(*self),
    {
        match self {
            HttpError::Connect(d) => {
                let mut cs = chars_of("nepodařilo se spojit se serverem (");
                append_str(&mut cs, d.as_str());
                append_str(&mut cs, ")");
                string_from(&cs)
            },
            HttpError::Http { status } => {
                if *status == 404 {
                    string_from(&chars_of("soubor na serveru není (404) — vydavatel ho ještě nenahrál"))
                } else {
                    let mut cs = chars_of("server odpověděl chybou ");
                    push_decimal(&mut cs, *status as u64);
                    string_from(&cs)
                }
            },
            HttpError::Read(d) => {
                let mut cs = chars_of("přenos se přerušil (");
                append_str(&mut cs, d.as_str());
                append_str(&mut cs, ")");
                string_from(&cs)
            },
        }
    }
}

/// Only 200 is a download: without this check an HTML error page would
/// be saved as if it were the binary.
pub fn check_status(status: u32) -> (r: Result<(), HttpError>)
    ensures
        status == 200 ==> r is Ok,
        status != 200 ==> r == Err::<(), HttpError>(HttpError::Http { status }),
{
    if status != 200 {
        Err(HttpError::Http { status })
    } else {
        Ok(())
    }
}

/// The connection error naming the host.
pub fn connect_error(host: &str) -> (e: HttpError)
    ensures
        e is Connect && e->Connect_0@ == "spojení na "@ + host@,
{
    let mut cs = chars_of("spojení na ");
    append_str(&mut cs, host);
    HttpError::Connect(string_from(&cs))
}

} // verus!
