use vstd::prelude::*;

verus! {

/// Spec-level image of `AppError`: the same taxonomy with the message of
/// `DBErrorWithMessage` abstracted to a sequence of characters.
pub enum AppErrorV {
    WrongCredentials,
    MissingCredentials,
    TokenCreation,
    InvalidToken,
    ExpiredToken,
    InternalServerError,
    DBError,
    NotFound,
    DBErrorWithMessage(Seq<char>),
    BadRequest,
}

/// Every service operation reports failure through this taxonomy; handlers map
/// each variant to one HTTP status (`status_code`) and one message (`message`).
#[derive(Debug, Clone)]
pub enum AppError {
    WrongCredentials,
    MissingCredentials,
    TokenCreation,
    InvalidToken,
    ExpiredToken,
    InternalServerError,
    DBError,
    NotFound,
    DBErrorWithMessage(String),
    BadRequest,
}

impl View for AppError {
    type V = AppErrorV;

    open spec fn view(&self) -> AppErrorV {
        match self {
            AppError::WrongCredentials => AppErrorV::WrongCredentials,
            AppError::MissingCredentials => AppErrorV::MissingCredentials,
            AppError::TokenCreation => AppErrorV::TokenCreation,
            AppError::InvalidToken => AppErrorV::InvalidToken,
            AppError::ExpiredToken => AppErrorV::ExpiredToken,
            AppError::InternalServerError => AppErrorV::InternalServerError,
            AppError::DBError => AppErrorV::DBError,
            AppError::NotFound => AppErrorV::NotFound,
            AppError::DBErrorWithMessage(m) => AppErrorV::DBErrorWithMessage(m@),
            AppError::BadRequest => AppErrorV::BadRequest,
        }
    }
}

impl DeepView for AppError {
    type V = AppErrorV;

    open spec fn deep_view(&self) -> AppErrorV {
        self.view()
    }
}

impl AppError {
    /// The HTTP status this error maps to at the API boundary.
    pub fn status_code(&self) -> (r: u16)
        ensures
            r == self@.spec_status_code(),
    {
        match self {
            AppError::WrongCredentials => 403,
            AppError::MissingCredentials => 401,
            AppError::TokenCreation => 500,
            AppError::InvalidToken => 400,
            AppError::ExpiredToken => 401,
            AppError::InternalServerError => 500,
            AppError::DBError => 500,
            AppError::NotFound => 404,
            AppError::DBErrorWithMessage(_) => 400,
            AppError::BadRequest => 400,
        }
    }

    /// The client-visible message this error maps to.
    pub fn message(&self) -> (r: String)
        ensures
            r@ == self@.spec_message(),
    {
        match self {
            AppError::WrongCredentials => "Wrong credentials".to_owned(),
            AppError::MissingCredentials => "Missing credentials".to_owned(),
            AppError::TokenCreation => "Token creation error".to_owned(),
            AppError::InvalidToken => "Invalid token".to_owned(),
            AppError::ExpiredToken => "Token Expired".to_owned(),
            AppError::InternalServerError => "Internal server error".to_owned(),
            AppError::DBError => "Database error".to_owned(),
            AppError::NotFound => "Not Found".to_owned(),
            AppError::DBErrorWithMessage(m) => "Database error: ".to_owned().concat(m.as_str()),
            AppError::BadRequest => "Invalid request".to_owned(),
        }
    }
}

impl AppErrorV {
    pub open spec fn spec_status_code(self) -> u16 {
        match self {
            AppErrorV::WrongCredentials => 403,
            AppErrorV::MissingCredentials => 401,
            AppErrorV::TokenCreation => 500,
            AppErrorV::InvalidToken => 400,
            AppErrorV::ExpiredToken => 401,
            AppErrorV::InternalServerError => 500,
            AppErrorV::DBError => 500,
            AppErrorV::NotFound => 404,
            AppErrorV::DBErrorWithMessage(_) => 400,
            AppErrorV::BadRequest => 400,
        }
    }

    pub open spec fn spec_message(self) -> Seq<char> {
        match self {
            AppErrorV::WrongCredentials => "Wrong credentials"@,
            AppErrorV::MissingCredentials => "Missing credentials"@,
            AppErrorV::TokenCreation => "Token creation error"@,
            AppErrorV::InvalidToken => "Invalid token"@,
            AppErrorV::ExpiredToken => "Token Expired"@,
            AppErrorV::InternalServerError => "Internal server error"@,
            AppErrorV::DBError => "Database error"@,
            AppErrorV::NotFound => "Not Found"@,
            AppErrorV::DBErrorWithMessage(m) => "Database error: "@ + m,
            AppErrorV::BadRequest => "Invalid request"@,
        }
    }
}

/// Maps a result to its spec-level image, so that contracts can compare a
/// returned `Result` with the outcome a spec function describes.
pub open spec fn res_v<T: DeepView, E: DeepView>(r: Result<T, E>) -> Result<T::V, E::V> {
    match r {
        Ok(t) => Ok(t.deep_view()),
        Err(e) => Err(e.deep_view()),
    }
}

// ---- bearer-token claims ----

pub struct ClaimsV {
    pub sub: Seq<char>,
    pub jti: Seq<char>,
    pub exp: int,
}

/// The payload of a bearer token: `sub` is the user id, `jti` the session id,
/// `exp` the session expiry as a unix timestamp.
#[derive(Debug)]
pub struct Claims {
    pub sub: String,
    pub jti: String,
    pub exp: i64,
}

impl View for Claims {
    type V = ClaimsV;

    open spec fn view(&self) -> ClaimsV {
        ClaimsV { sub: self.sub@, jti: self.jti@, exp: self.exp as int }
    }
}

impl DeepView for Claims {
    type V = ClaimsV;

    open spec fn deep_view(&self) -> ClaimsV {
        self.view()
    }
}

// ---- login / logout ----

pub struct AuthBodyV {
    pub access_token: Seq<char>,
    pub token_type: Seq<char>,
}

#[derive(Debug)]
pub struct AuthBody {
    pub access_token: String,
    pub token_type: String,
}

impl View for AuthBody {
    type V = AuthBodyV;

    open spec fn view(&self) -> AuthBodyV {
        AuthBodyV { access_token: self.access_token@, token_type: self.token_type@ }
    }
}

impl DeepView for AuthBody {
    type V = AuthBodyV;

    open spec fn deep_view(&self) -> AuthBodyV {
        self.view()
    }
}

impl AuthBody {
    pub fn new(access_token: String) -> (r: Self)
        ensures
            r@.access_token == access_token@,
            r@.token_type == "Bearer"@,
    {
        Self { access_token, token_type: "Bearer".to_owned() }
    }
}

/// The credentials a client submits to log in: `client_id` is the account
/// email, `client_secret` the password.
#[derive(Debug)]
pub struct AuthPayload {
    pub client_id: String,
    pub client_secret: String,
}

pub struct AuthPayloadV {
    pub client_id: Seq<char>,
    pub client_secret: Seq<char>,
}

impl View for AuthPayload {
    type V = AuthPayloadV;

    open spec fn view(&self) -> AuthPayloadV {
        AuthPayloadV { client_id: self.client_id@, client_secret: self.client_secret@ }
    }
}

pub struct LogoutResultV {
    pub session_id: Seq<char>,
    pub ok: bool,
}

#[derive(Debug)]
pub struct LogoutResult {
    pub session_id: String,
    pub ok: bool,
}

impl View for LogoutResult {
    type V = LogoutResultV;

    open spec fn view(&self) -> LogoutResultV {
        LogoutResultV { session_id: self.session_id@, ok: self.ok }
    }
}

impl DeepView for LogoutResult {
    type V = LogoutResultV;

    open spec fn deep_view(&self) -> LogoutResultV {
        self.view()
    }
}

impl LogoutResult {
    pub fn new(session_id: String) -> (r: Self)
        ensures
            r@.session_id == session_id@,
            r@.ok,
    {
        Self { session_id, ok: true }
    }
}

// ---- pagination ----

/// A page request; `None` fields fall back to the defaults page 1, size 25.
#[derive(Debug, Clone)]
pub struct PaginationRequest {
    pub page: Option<i64>,
    pub page_size: Option<i64>,
}

impl PaginationRequest {
    pub open spec fn spec_limit(&self) -> int {
        match self.page_size {
            Some(v) => v as int,
            None => 25,
        }
    }

    pub open spec fn spec_page(&self) -> int {
        match self.page {
            Some(v) => v as int,
            None => 1,
        }
    }

    /// `(page - 1) * limit`, clamped to the `i64` range.
    pub open spec fn spec_offset(&self) -> int {
        let raw = (self.spec_page() - 1) * self.spec_limit();
        if raw > i64::MAX as int {
            i64::MAX as int
        } else if raw < i64::MIN as int {
            i64::MIN as int
        } else {
            raw
        }
    }

    pub fn limit(&self) -> (r: i64)
        ensures
            r as int == self.spec_limit(),
    {
        match self.page_size {
            Some(v) => v,
            None => 25,
        }
    }

    pub fn page(&self) -> (r: i64)
        ensures
            r as int == self.spec_page(),
    {
        match self.page {
            Some(v) => v,
            None => 1,
        }
    }

    pub fn offset(&self) -> (r: i64)
        ensures
            r as int == self.spec_offset(),
    {
        let p: i128 = self.page() as i128;
        let l: i128 = self.limit() as i128;
        assert(i128::MIN <= (p - 1) * l <= i128::MAX) by (nonlinear_arith)
            requires
                i64::MIN <= p <= i64::MAX,
                i64::MIN <= l <= i64::MAX,
        ;
        let o: i128 = (p - 1) * l;
        if o > i64::MAX as i128 {
            i64::MAX
        } else if o < i64::MIN as i128 {
            i64::MIN
        } else {
            o as i64
        }
    }
}

/// The rows a page shows: `lim` rows from position `off`, or up to the end,
/// or none when `off` lies past the end.
pub open spec fn page_of<T>(s: Seq<T>, off: int, lim: int) -> Seq<T>
    recommends
        0 <= off,
        0 <= lim,
{
    if off >= s.len() {
        Seq::empty()
    } else if off + lim <= s.len() {
        s.subrange(off, off + lim)
    } else {
        s.subrange(off, s.len() as int)
    }
}

/// The `has_more` rule every listing uses: rows remain past this page exactly
/// when the total count minus the offset exceeds the page size.
pub fn has_more_calc(count: usize, off: i64, lim: i64) -> (r: bool)
    ensures
        r == (count as int - off as int > lim as int),
{
    let c: i128 = count as i128;
    let o: i128 = off as i128;
    let l: i128 = lim as i128;
    c - o > l
}

pub struct PaginatedResultV<TV> {
    pub results: Seq<TV>,
    pub has_more: bool,
}

/// One page of a listing; `has_more` says whether rows remain past this page.
#[derive(Debug)]
pub struct PaginatedResult<T> {
    pub results: Vec<T>,
    pub has_more: bool,
}

impl<T: DeepView> View for PaginatedResult<T> {
    type V = PaginatedResultV<T::V>;

    open spec fn view(&self) -> PaginatedResultV<T::V> {
        PaginatedResultV { results: self.results.deep_view(), has_more: self.has_more }
    }
}

impl<T: DeepView> DeepView for PaginatedResult<T> {
    type V = PaginatedResultV<T::V>;

    open spec fn deep_view(&self) -> PaginatedResultV<T::V> {
        self.view()
    }
}

} // verus!
