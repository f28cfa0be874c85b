//! Customer accounts: registration, profile updates, addresses, sign-in
//! checks and display names.
use argon2::password_hash::PasswordHasher;
use vstd::prelude::*;
use crate::text::{chars_of, concat, concat3, is_blank, owned, trim, trim_string};

verus! {

#[derive(Debug, Clone, Copy, PartialEq, Eq, Structural)]
pub enum CustomerStatus {
    Active,
    Inactive,
}

/// Why a customer operation was refused.
#[derive(Debug, Clone)]
pub enum CustomerError {
    ValidationError(String),
    AuthError(String),
    NotFound(String),
    InternalError(String),
}

#[derive(Debug)]
pub struct RegisterCustomerInput {
    pub email: String,
    pub password: String,
    pub first_name: String,
    pub last_name: String,
    pub phone: Option<String>,
    pub accepts_marketing: bool,
}

#[derive(Debug)]
pub struct UpdateCustomerInput {
    pub first_name: Option<String>,
    pub last_name: Option<String>,
    pub phone: Option<String>,
    pub accepts_marketing: Option<bool>,
}

#[derive(Debug)]
pub struct AddAddressInput {
    pub first_name: String,
    pub last_name: String,
    pub company: Option<String>,
    pub address_line_1: String,
    pub address_line_2: Option<String>,
    pub city: String,
    pub province: String,
    pub country_code: String,
    pub postal_code: String,
    pub phone: Option<String>,
    pub is_default_shipping: Option<bool>,
    pub is_default_billing: Option<bool>,
}

/// A customer's profile.
#[derive(Debug, Clone)]
pub struct CustomerProfile {
    pub id: String,
    pub email: String,
    pub first_name: String,
    pub last_name: String,
    pub phone: Option<String>,
    pub accepts_marketing: bool,
    pub status: CustomerStatus,
}

/// The name a new customer is shown under: first and last name, trimmed;
/// the first name alone when that is blank.
pub open spec fn spec_display_name(first: Seq<char>, last: Seq<char>) -> Seq<char> {
    let full = trim(first + " "@ + last);
    if full.len() == 0 {
        first
    } else {
        full
    }
}

pub fn display_name(first_name: &str, last_name: &str) -> (s: String)
    ensures
        s@ == spec_display_name(first_name@, last_name@),
{
    let full = concat3(first_name, " ", last_name);
    let t = trim_string(full.as_str());
    if chars_of(t.as_str()).len() == 0 {
        owned(first_name)
    } else {
        t
    }
}

/// The name sign-in records carry: the display name trimmed, or the e-mail
/// when it is blank.
pub fn credential_name(name: &str, email: &str) -> (s: String)
    ensures
        s@ == (if trim(name@).len() == 0 { email@ } else { trim(name@) }),
{
    if is_blank(name) {
        owned(email)
    } else {
        trim_string(name)
    }
}

/// The B64 characters a PHC salt is written in.
pub open spec fn b64_char(c: char) -> bool {
    ('A' <= c <= 'Z') || ('a' <= c <= 'z') || ('0' <= c <= '9') || c == '+' || c == '/'
}

/// Sixteen bytes in unpadded B64: 22 characters, the last carrying only the
/// top two bits of the last byte.
pub open spec fn salt_of_sixteen_bytes(s: Seq<char>) -> bool {
    &&& s.len() == 22
    &&& forall|i: int| 0 <= i < 22 ==> b64_char(#[trigger] s[i])
    &&& (s[21] == 'A' || s[21] == 'Q' || s[21] == 'g' || s[21] == 'w')
}

/// The PHC text that `Argon2::default()` makes of a password and a salt.
pub uninterp spec fn argon2id_phc(password: Seq<char>, salt: Seq<char>) -> Seq<char>;

/// How every such text begins: algorithm, version, the default costs, then
/// the salt.
pub open spec fn phc_head(salt: Seq<char>) -> Seq<char> {
    "$argon2id$v=19$m=19456,t=2,p=1$"@ + salt + "$"@
}

/// `SaltString::generate` over the operating system's random source: sixteen
/// random bytes written in B64. Which bytes is left open; the random source
/// panics when the system cannot supply randomness; the call takes no
/// input, so no precondition can rule that out.
#[verifier::external_body]
fn generate_salt() -> (s: String)
    ensures
        salt_of_sixteen_bytes(s@),
{
    argon2::password_hash::SaltString::generate(&mut rand::rngs::OsRng).as_str().to_string()
}

/// `Argon2::default().hash_password` of the password's bytes with the salt
/// read by `Salt::from_b64`, written out as its PHC text; an error carries
/// the hasher's message. It succeeds on every password of at most
/// `0xFFFF_FFFF` bytes with a salt of sixteen bytes.
#[verifier::external_body]
fn argon2_hash(password: &str, salt: &str) -> (r: Result<String, String>)
    ensures
        r matches Ok(h) ==> h@ == argon2id_phc(password@, salt@) && crate::text::is_prefix(phc_head(salt@), h@),
        crate::text::utf8_len(password@) <= 0xFFFF_FFFF && salt_of_sixteen_bytes(salt@) ==> r is Ok,
{
    let salt = match argon2::password_hash::Salt::from_b64(salt) {
        Ok(salt) => salt,
        Err(err) => return Err(err.to_string()),
    };
    match argon2::Argon2::default().hash_password(password.as_bytes(), salt) {
        Ok(hash) => Ok(hash.to_string()),
        Err(err) => Err(err.to_string()),
    }
}

/// Hashes a password with a fresh random salt; a blank one is refused
/// before hashing.
pub fn hash_password(password: &str) -> (r: Result<String, CustomerError>)
    ensures
        trim(password@).len() == 0 <==> (r matches Err(CustomerError::ValidationError(m)) && m@
            == "Password cannot be empty"@),
        r matches Err(e) ==> (e matches CustomerError::ValidationError(_)) || (e matches CustomerError::InternalError(m)
            && crate::text::is_prefix("Failed to hash password: "@, m@)),
        trim(password@).len() > 0 && crate::text::utf8_len(password@) <= 0xFFFF_FFFF ==> r is Ok,
        r matches Ok(h) ==> exists|salt: Seq<char>|
            salt_of_sixteen_bytes(salt) && h@ == #[trigger] argon2id_phc(password@, salt) && crate::text::is_prefix(
                phc_head(salt),
                h@,
            ),
{
    if is_blank(password) {
        return Err(CustomerError::ValidationError(owned("Password cannot be empty")));
    }
    let salt = generate_salt();
    match argon2_hash(password, salt.as_str()) {
        Ok(h) => Ok(h),
        Err(m) => {
            let s = concat("Failed to hash password: ", m.as_str());
            proof {
                reveal_strlit("Failed to hash password: ");
                assert(s@.subrange(0, 25) =~= "Failed to hash password: "@);
            }
            Err(CustomerError::InternalError(s))
        },
    }
}

/// A new, active customer with no verified e-mail.
pub fn new_profile(id: String, input: &RegisterCustomerInput) -> (p: CustomerProfile)
    ensures
        p.id == id,
        p.email == input.email,
        p.first_name == input.first_name,
        p.last_name == input.last_name,
        p.phone == input.phone,
        p.accepts_marketing == input.accepts_marketing,
        p.status == CustomerStatus::Active,
{
    CustomerProfile {
        id,
        email: input.email.clone(),
        first_name: input.first_name.clone(),
        last_name: input.last_name.clone(),
        phone: crate::agentic::model::clone_opt(&input.phone),
        accepts_marketing: input.accepts_marketing,
        status: CustomerStatus::Active,
    }
}

/// A profile with the fields the update gives replaced.
pub fn update_customer(profile: CustomerProfile, input: UpdateCustomerInput) -> (p: CustomerProfile)
    ensures
        p.first_name == (match input.first_name { Some(f) => f, None => profile.first_name }),
        p.last_name == (match input.last_name { Some(l) => l, None => profile.last_name }),
        p.phone == (match input.phone { Some(ph) => Some(ph), None => profile.phone }),
        p.accepts_marketing == (match input.accepts_marketing { Some(a) => a, None => profile.accepts_marketing }),
        p.id == profile.id && p.email == profile.email && p.status == profile.status,
{
    let mut p = profile;
    if let Some(f) = input.first_name {
        p.first_name = f;
    }
    if let Some(l) = input.last_name {
        p.last_name = l;
    }
    if let Some(ph) = input.phone {
        p.phone = Some(ph);
    }
    if let Some(a) = input.accepts_marketing {
        p.accepts_marketing = a;
    }
    p
}

/// The name stored on a new address: first and last name.
pub fn address_name(input: &AddAddressInput) -> (s: String)
    ensures
        s@ == input.first_name@ + " "@ + input.last_name@,
{
    concat3(input.first_name.as_str(), " ", input.last_name.as_str())
}

/// Which defaults a new address becomes: shipping, billing.
pub fn address_defaults(input: &AddAddressInput) -> (r: (bool, bool))
    ensures
        r.0 == (input.is_default_shipping == Some(true)),
        r.1 == (input.is_default_billing == Some(true)),
{
    let ship = match input.is_default_shipping {
        Some(b) => b,
        None => false,
    };
    let bill = match input.is_default_billing {
        Some(b) => b,
        None => false,
    };
    (ship, bill)
}

/// Signing in needs the customer record to carry the authenticated e-mail
/// and to be active.
pub fn check_login(profile: &CustomerProfile, authenticated_email: &str) -> (r: Result<(), CustomerError>)
    ensures
        match r {
            Ok(_) => profile.email@ == authenticated_email@ && profile.status == CustomerStatus::Active,
            Err(CustomerError::AuthError(m)) => if profile.email@ != authenticated_email@ {
                m@ == "Invalid credentials"@
            } else {
                profile.status != CustomerStatus::Active && m@ == "Account is not active"@
            },
            Err(_) => false,
        },
{
    if !crate::text::str_eq(profile.email.as_str(), authenticated_email) {
        return Err(CustomerError::AuthError(owned("Invalid credentials")));
    }
    if profile.status != CustomerStatus::Active {
        return Err(CustomerError::AuthError(owned("Account is not active")));
    }
    Ok(())
}

/// An e-mail already taken refuses registration.
pub fn check_email_available(taken: bool) -> (r: Result<(), CustomerError>)
    ensures
        match r {
            Ok(_) => !taken,
            Err(CustomerError::ValidationError(m)) => taken && m@ == "Email already registered"@,
            Err(_) => false,
        },
{
    if taken {
        return Err(CustomerError::ValidationError(owned("Email already registered")));
    }
    Ok(())
}

} // verus!
