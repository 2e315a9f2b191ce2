//! The user-details form: a photo, a location and the session it is sent from.
use vstd::prelude::*;
use crate::auth::{is_hyphenated_uuid_v4, new_uuid_string};
use crate::errors::{is_server_error, join, text, AppError, Redirected};
use crate::session::UserSessionSS;

verus! {

/// How a field of the multipart form is read, by the field's name.
#[derive(Clone, Copy, Debug, PartialEq, Eq, Structural)]
pub enum FieldKind {
    /// `file_to_upload`: its chunks are the photo's bytes.
    FileChunks,
    /// `location`: its text is the user's location.
    Location,
    /// `session_id`: its text is the sender's session id.
    SessionId,
    /// Any other field is skipped.
    Ignored,
}

/// The kind of a form field by its name (a field without a name counts as the empty name).
pub fn field_kind(name: &str) -> (r: FieldKind)
    ensures
        r == if name@ == "file_to_upload"@ {
            FieldKind::FileChunks
        } else if name@ == "location"@ {
            FieldKind::Location
        } else if name@ == "session_id"@ {
            FieldKind::SessionId
        } else {
            FieldKind::Ignored
        },
{
    let name = text(name);
    if name == text("file_to_upload") {
        FieldKind::FileChunks
    } else if name == text("location") {
        FieldKind::Location
    } else if name == text("session_id") {
        FieldKind::SessionId
    } else {
        FieldKind::Ignored
    }
}

/// What has been read of the form so far.
pub struct UploadForm {
    pub file_bytes: Vec<u8>,
    pub location: String,
    pub session_id: String,
}

impl UploadForm {
    /// A form of which nothing is read yet: no bytes, empty location and session id.
    pub fn new() -> (r: Self)
        ensures
            r.file_bytes@ == Seq::<u8>::empty(),
            r.location@ == Seq::<char>::empty(),
            r.session_id@ == Seq::<char>::empty(),
    {
        UploadForm { file_bytes: Vec::new(), location: String::new(), session_id: String::new() }
    }

    /// Appends a chunk of the photo.
    pub fn add_file_chunk(&mut self, chunk: &[u8])
        ensures
            final(self).file_bytes@ == old(self).file_bytes@ + chunk@,
            final(self).location == old(self).location,
            final(self).session_id == old(self).session_id,
    {
        let mut i: usize = 0;
        let ghost start = self.file_bytes@;
        while i < chunk.len()
            invariant
                0 <= i <= chunk@.len(),
                self.file_bytes@ == start + chunk@.take(i as int),
                self.location == old(self).location,
                self.session_id == old(self).session_id,
            decreases chunk@.len() - i,
        {
            self.file_bytes.push(chunk[i]);
            i = i + 1;
            proof {
                assert(chunk@.take(i as int) == chunk@.take(i - 1).push(chunk@[i - 1]));
            }
        }
        proof {
            assert(chunk@.take(chunk@.len() as int) == chunk@);
        }
    }

    /// Replaces the location by the text of a `location` field.
    pub fn set_location(&mut self, location: String)
        ensures
            final(self).location == location,
            final(self).file_bytes == old(self).file_bytes,
            final(self).session_id == old(self).session_id,
    {
        self.location = location;
    }

    /// Replaces the session id by the text of a `session_id` field.
    pub fn set_session_id(&mut self, session_id: String)
        ensures
            final(self).session_id == session_id,
            final(self).file_bytes == old(self).file_bytes,
            final(self).location == old(self).location,
    {
        self.session_id = session_id;
    }
}

/// The extensions of the file type that the `file_type` crate detects in `bytes`.
pub uninterp spec fn detected_extensions(bytes: Seq<u8>) -> Seq<Seq<char>>;

/// Calls `file_type::FileType::from_bytes(bytes).extensions()` and copies the extensions.
/// Trusted: the result is named `detected_extensions` of the bytes (the detection reads the
/// bytes alone, against the crate's built-in signatures); nothing more is stated of it.
#[verifier::external_body]
fn file_extensions(bytes: &Vec<u8>) -> (r: Vec<String>)
    ensures
        r@.map_values(|e: String| e@) == detected_extensions(bytes@),
{
    file_type::FileType::from_bytes(bytes.as_slice()).extensions().iter().map(|e| e.to_string()).collect()
}

/// The extensions that a photo may have.
pub open spec fn allowed_upload_extension(e: Seq<char>) -> bool {
    e == "png"@ || e == "jpeg"@ || e == "jpg"@
}

/// The photo types accepted are exactly png, jpeg and jpg.
pub proof fn lemma_allowed_upload_extensions(e: Seq<char>)
    ensures
        allowed_upload_extension(e) <==> (e == "png"@ || e == "jpeg"@ || e == "jpg"@),
{
}

/// The first extension of the list, or the empty text where there is none.
pub open spec fn first_extension(exts: Seq<Seq<char>>) -> Seq<char> {
    if exts.len() > 0 {
        exts[0]
    } else {
        Seq::<char>::empty()
    }
}

/// The first extension is the head of a non-empty list, and empty for an empty list.
pub proof fn lemma_first_extension(exts: Seq<Seq<char>>)
    ensures
        exts.len() > 0 ==> first_extension(exts) == exts[0],
        exts.len() == 0 ==> first_extension(exts).len() == 0,
{
}

/// The photo's extension from the detected extensions: the first of them where it is
/// `png`, `jpeg` or `jpg`, else "Invalid File Type!".
pub fn choose_upload_extension(exts: &Vec<String>) -> (r: Result<String, AppError>)
    ensures
        r is Ok <==> allowed_upload_extension(first_extension(exts@.map_values(|e: String| e@))),
        r matches Ok(e) ==> e@ == first_extension(exts@.map_values(|e: String| e@)),
        r matches Err(e) ==> is_server_error(e, "Invalid File Type!"@),
        r matches Ok(e) ==> e@ == "png"@ || e@ == "jpeg"@ || e@ == "jpg"@,
        exts@.len() > 0 && (exts@[0]@ == "png"@ || exts@[0]@ == "jpeg"@ || exts@[0]@ == "jpg"@)
            ==> (r matches Ok(e) && e@ == exts@[0]@),
{
    let first = if exts.len() > 0 {
        exts[0].clone()
    } else {
        String::new()
    };
    proof {
        assert(first@ == first_extension(exts@.map_values(|e: String| e@)));
    }
    if first == text("png") || first == text("jpeg") || first == text("jpg") {
        Ok(first)
    } else {
        Err(AppError::ServerError(text("Invalid File Type!")))
    }
}

/// The photo's extension, from its bytes (see `choose_upload_extension`).
pub fn upload_extension(bytes: &Vec<u8>) -> (r: Result<String, AppError>)
    ensures
        r is Ok <==> allowed_upload_extension(first_extension(detected_extensions(bytes@))),
        r matches Ok(e) ==> e@ == first_extension(detected_extensions(bytes@)),
        r matches Err(e) ==> is_server_error(e, "Invalid File Type!"@),
        r matches Ok(e) ==> e@ == "png"@ || e@ == "jpeg"@ || e@ == "jpg"@,
{
    let exts = file_extensions(bytes);
    choose_upload_extension(&exts)
}

/// Where an uploaded photo is written: `./uploads/<file_id>.<ext>`.
pub fn upload_path(file_id: &str, ext: &str) -> (r: String)
    ensures
        r@ == "./uploads/"@ + file_id@ + "."@ + ext@,
{
    let mut r = join("./uploads/", file_id);
    r.append(".");
    r.append(ext);
    r
}

/// What the server does with a submitted details form.
#[derive(Debug)]
pub enum UploadDecision {
    /// The sender is not signed in: send the browser to `redirect` and answer `Ok(reply)`.
    ResignIn { redirect: String, reply: String },
    /// Answer with the error.
    Reject(AppError),
    /// Write the photo to `path`, record the user's photo and location, send the browser
    /// to `redirect` and answer `Ok(path)`.
    Store { user_id: i32, path: String, redirect: String },
}

/// Decides on a submitted details form, once the session store has answered for its
/// session id: without a session, back to sign-in with "User needs to re-sign in"; with a
/// photo of a refused type, "Invalid File Type!"; else the photo is stored under a fresh
/// random name with its detected extension, and the browser goes to "/homepage".
pub fn decide_upload(session: Result<UserSessionSS, Redirected>, form: &UploadForm) -> (r:
    UploadDecision)
    ensures
        session is Err ==> (r matches UploadDecision::ResignIn { redirect, reply } && redirect@
            == "/signin?page=adduserdetails"@ && reply@ == "User needs to re-sign in"@),
        session is Ok && !allowed_upload_extension(
            first_extension(detected_extensions(form.file_bytes@)),
        ) ==> (r matches UploadDecision::Reject(e) && is_server_error(e, "Invalid File Type!"@)),
        session matches Ok(u) ==> (allowed_upload_extension(
            first_extension(detected_extensions(form.file_bytes@)),
        ) ==> (r matches UploadDecision::Store { user_id, path, redirect } && user_id == u.id
            && redirect@ == "/homepage"@ && exists|id: Seq<char>|
            is_hyphenated_uuid_v4(id) && path@ == "./uploads/"@ + id + "."@ + first_extension(
                detected_extensions(form.file_bytes@),
            ))),
        r matches UploadDecision::Store { path, .. } ==> exists|id: Seq<char>, ext: Seq<char>|
            (ext == "png"@ || ext == "jpeg"@ || ext == "jpg"@) && path@ == "./uploads/"@ + id + "."@
                + ext,
        r is Store ==> session is Ok,
{
    let user_session_ss = match session {
        Ok(usss) => usss,
        Err(_) => {
            return UploadDecision::ResignIn {
                redirect: text("/signin?page=adduserdetails"),
                reply: text("User needs to re-sign in"),
            };
        },
    };
    let filetype = match upload_extension(&form.file_bytes) {
        Ok(e) => e,
        Err(e) => {
            return UploadDecision::Reject(e);
        },
    };
    let file_id = new_uuid_string();
    let path = upload_path(file_id.as_str(), filetype.as_str());
    UploadDecision::Store { user_id: user_session_ss.id, path: path, redirect: text("/homepage") }
}

} // verus!
