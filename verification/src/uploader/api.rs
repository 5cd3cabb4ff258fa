//! The requests to the marketplace: who asks, and what is sent.

use vstd::prelude::*;
use vstd::string::StringExecFns;
use vstd::string::StringSliceAdditionalSpecFns;

verus! {

/// The base64 text, in the standard alphabet with padding, of the UTF-8
/// bytes of `input`.
pub uninterp spec fn base64_standard(input: Seq<char>) -> Seq<char>;

/// Whether a text of that many bytes can be encoded: its encoding, four
/// characters for every three bytes begun, has a length that fits.
pub open spec fn encodable(bytes: nat) -> bool {
    (bytes / 3) * 4 + 4 <= usize::MAX
}

/// `Engine::encode` of the standard engine: the base64 text of the input's
/// bytes. The call panics where the length of the result does not fit in
/// `usize`, which `requires` leaves out.
#[verifier::external_body]
fn encode_standard(input: &str) -> (r: String)
    requires
        encodable(input.spec_bytes().len()),
    ensures
        r@ == base64_standard(input@),
{
    base64::Engine::encode(&base64::prelude::BASE64_STANDARD, input)
}

/// The two parts of a retailer's key.
#[derive(Debug)]
pub struct Credentials {
    pub client_id: String,
    pub client_secret: String,
}

/// The token that the credentials are sent as: identifier, colon, secret.
pub open spec fn token_of(id: Seq<char>, secret: Seq<char>) -> Seq<char> {
    id + ":"@ + secret
}

impl Credentials {
    /// The credentials as they are sent: the base64 text of the token.
    /// `None` where the token is too long to be encoded.
    pub fn to_string(&self) -> (r: Option<String>)
        ensures
            match r {
                Some(text) => text@ == base64_standard(
                    token_of(self.client_id@, self.client_secret@),
                ),
                None => !encodable(
                    vstd::utf8::encode_utf8(token_of(self.client_id@, self.client_secret@)).len(),
                ),
            },
    {
        let mut token = self.client_id.clone();
        token.append(":");
        token.append(self.client_secret.as_str());
        let bytes = token.as_str().as_bytes().len();
        assert(token@ == token_of(self.client_id@, self.client_secret@));
        assert(bytes == vstd::utf8::encode_utf8(token@).len());
        if bytes / 3 > (usize::MAX - 4) / 4 {
            return None;
        }
        Some(encode_standard(token.as_str()))
    }
}

/// What a granted session holds.
#[derive(Debug)]
pub struct AccessToken {
    pub access_token: String,
    pub token_type: String,
    pub expires_in: u32,
    pub scope: String,
}

/// The verb of a request.
#[derive(Clone, Copy, Debug, PartialEq, Eq, Structural)]
pub enum Method {
    Get,
    Post,
    Put,
    Delete,
}

/// One header of a request.
#[derive(Debug)]
pub struct Header {
    pub name: String,
    pub value: String,
}

/// A request, ready to be sent.
#[derive(Debug)]
pub struct Request {
    pub method: Method,
    pub url: String,
    pub headers: Vec<Header>,
    pub body: Option<Vec<u8>>,
}

/// Why a request is not made or an answer not taken.
#[derive(Clone, Copy, Debug, PartialEq, Eq, Structural)]
pub enum ClientError {
    /// The client has no session.
    NotAuthenticated,
    /// The credentials are too long to be sent.
    CredentialsTooLong,
    /// The marketplace answered with that status instead of 200.
    Refused(u16),
}

/// The media type of the retailer interface.
pub open spec fn content_type() -> Seq<char> {
    "application/vnd.retailer.v10+json"@
}

/// The address of an endpoint of the retailer interface.
pub open spec fn endpoint_url(endpoint: Seq<char>) -> Seq<char> {
    "https://api.bol.com/retailer"@ + endpoint
}

/// The client of the retailer interface: the session, once granted.
#[derive(Debug)]
pub struct Client {
    pub session: Option<AccessToken>,
}

fn header(name: &str, value: String) -> (h: Header)
    ensures
        h.name@ == name@,
        h.value@ == value@,
{
    Header { name: String::from_str(name), value }
}

impl Client {
    /// A client without a session.
    pub fn new() -> (r: Self)
        ensures
            r.session is None,
    {
        Client { session: None }
    }

    /// The request that asks for a session: a post to the login address,
    /// without content, that carries the credentials.
    pub fn authentication_request(creds: &Credentials) -> (r: Result<Request, ClientError>)
        ensures
            match r {
                Ok(request) => {
                    &&& request.method == Method::Post
                    &&& request.url@ == "https://login.bol.com/token?grant_type=client_credentials"@
                    &&& request.body is None
                    &&& request.headers@.len() == 2
                    &&& request.headers@[0].name@ == "content-length"@
                    &&& request.headers@[0].value@ == "0"@
                    &&& request.headers@[1].name@ == "authorization"@
                    &&& request.headers@[1].value@ == "Basic "@ + base64_standard(
                        token_of(creds.client_id@, creds.client_secret@),
                    )
                },
                Err(e) => {
                    &&& e == ClientError::CredentialsTooLong
                    &&& !encodable(
                        vstd::utf8::encode_utf8(
                            token_of(creds.client_id@, creds.client_secret@),
                        ).len(),
                    )
                },
            },
    {
        let encoded = match creds.to_string() {
            Some(text) => text,
            None => {
                return Err(ClientError::CredentialsTooLong);
            },
        };
        let mut basic = String::from_str("Basic ");
        basic.append(encoded.as_str());
        let mut headers: Vec<Header> = Vec::new();
        headers.push(header("content-length", String::from_str("0")));
        headers.push(header("authorization", basic));
        Ok(
            Request {
                method: Method::Post,
                url: String::from_str("https://login.bol.com/token?grant_type=client_credentials"),
                headers,
                body: None,
            },
        )
    }

    /// Takes the answer to the request for a session: with status 200 the
    /// session is the client's from now on, with another status nothing
    /// changes and the status is handed back.
    pub fn authenticate(&mut self, status: u16, token: AccessToken) -> (r: Result<(), ClientError>)
        ensures
            status == 200 ==> r is Ok && final(self).session == Some(token),
            status != 200 ==> r == Err::<(), ClientError>(ClientError::Refused(status))
                && final(self).session == old(self).session,
    {
        if status != 200 {
            return Err(ClientError::Refused(status));
        }
        self.session = Some(token);
        Ok(())
    }

    /// A client that holds the session that the answer grants.
    pub fn new_with_session(status: u16, token: AccessToken) -> (r: Result<Client, ClientError>)
        ensures
            status == 200 ==> r is Ok && r->Ok_0.session == Some(token),
            status != 200 ==> r is Err && r->Err_0 == ClientError::Refused(status),
    {
        let mut client = Client::new();
        match client.authenticate(status, token) {
            Ok(()) => Ok(client),
            Err(e) => Err(e),
        }
    }

    /// The request to an endpoint of the retailer interface, with the
    /// session's token; none without a session.
    pub fn request(&self, method: Method, endpoint: &str, body: Option<Vec<u8>>) -> (r: Result<
        Request,
        ClientError,
    >)
        ensures
            match r {
                Ok(request) => {
                    &&& self.session is Some
                    &&& request.method == method
                    &&& request.url@ == endpoint_url(endpoint@)
                    &&& request.body == body
                    &&& request.headers@.len() == 3
                    &&& request.headers@[0].name@ == "accept"@
                    &&& request.headers@[0].value@ == content_type()
                    &&& request.headers@[1].name@ == "authorization"@
                    &&& request.headers@[1].value@ == "Bearer "@
                        + self.session->0.access_token@
                    &&& request.headers@[2].name@ == "content-type"@
                    &&& request.headers@[2].value@ == content_type()
                },
                Err(e) => self.session is None && e == ClientError::NotAuthenticated,
            },
    {
        let token = match &self.session {
            Some(session) => &session.access_token,
            None => {
                return Err(ClientError::NotAuthenticated);
            },
        };
        let mut url = String::from_str("https://api.bol.com/retailer");
        url.append(endpoint);
        let mut bearer = String::from_str("Bearer ");
        bearer.append(token.as_str());
        let mut headers: Vec<Header> = Vec::new();
        headers.push(header("accept", String::from_str("application/vnd.retailer.v10+json")));
        headers.push(header("authorization", bearer));
        headers.push(header("content-type", String::from_str("application/vnd.retailer.v10+json")));
        Ok(Request { method, url, headers, body })
    }

    /// The request that creates an offer from its serialised form.
    pub fn create_offer(&self, offer: Vec<u8>) -> (r: Result<Request, ClientError>)
        ensures
            r is Ok <==> self.session is Some,
            r matches Ok(request) ==> request.method == Method::Post && request.url@
                == endpoint_url("/offer"@) && request.body == Some(offer),
    {
        self.request(Method::Post, "/offer", Some(offer))
    }

    /// The request that creates product content from its serialised form.
    pub fn create_product_content(&self, content: Vec<u8>) -> (r: Result<Request, ClientError>)
        ensures
            r is Ok <==> self.session is Some,
            r matches Ok(request) ==> request.method == Method::Post && request.url@
                == endpoint_url("/content/products"@) && request.body == Some(content),
    {
        self.request(Method::Post, "/content/products", Some(content))
    }
}

} // verus!
