//! Tag logic for the two supported containers.
//!
//! Reading a tag from disk and writing it back are I/O and live with the
//! caller; this module holds the decisions made on a loaded tag: whether the
//! track is a compilation, which artist and album name its group, and how
//! the normalization comment is attached.  The tag containers come from the
//! id3 and mp4ameta crates and are opaque here; what a tag carries is
//! modelled by uninterpreted functions of the tag value (its artist and
//! album text, a frame's raw bytes, the comments under a description, the
//! values under a freeform identifier), which the trusted wrappers tie to
//! the outside calls, and every method states its result or effect over
//! those functions.

use id3::TagLike;
use vstd::prelude::*;

verus! {

#[verifier::external_type_specification]
#[verifier::external_body]
pub struct ExId3Tag(id3::Tag);

#[verifier::external_type_specification]
#[verifier::external_body]
pub struct ExM4aTag(mp4ameta::Tag);

/// The artist text an id3 tag carries, if any.
pub uninterp spec fn id3_artist_of(t: id3::Tag) -> Option<Seq<char>>;

/// The album text an id3 tag carries, if any.
pub uninterp spec fn id3_album_of(t: id3::Tag) -> Option<Seq<char>>;

/// The raw bytes of the first frame with the given id in an id3 tag.
pub uninterp spec fn id3_raw_data_of(t: id3::Tag, id: Seq<char>) -> Option<Seq<u8>>;

/// The (language, text) pairs of an id3 tag's comments with the given
/// description, in tag order.
pub uninterp spec fn id3_comments_of(t: id3::Tag, description: Seq<char>) -> Seq<
    (Seq<char>, Seq<char>),
>;

/// The artist text an MPEG-4 tag carries, if any.
pub uninterp spec fn m4a_artist_of(t: mp4ameta::Tag) -> Option<Seq<char>>;

/// The album text an MPEG-4 tag carries, if any.
pub uninterp spec fn m4a_album_of(t: mp4ameta::Tag) -> Option<Seq<char>>;

/// The bytes of the first data entry of the atom with the given
/// four-character code, where that entry holds bytes.
pub uninterp spec fn m4a_bytes_of(t: mp4ameta::Tag, code: Seq<u8>) -> Option<Seq<u8>>;

/// The UTF-8 values of the freeform atom with the given mean and name, in
/// atom order.
pub uninterp spec fn m4a_freeform_of(t: mp4ameta::Tag, mean: Seq<char>, name: Seq<char>) -> Seq<
    Seq<char>,
>;

/// The frame id of a comment.
pub open spec fn comment_frame_id() -> Seq<char> {
    "COMM"@
}

/// The frame id of the compilation flag of an id3 tag.
pub open spec fn tcmp_frame_id() -> Seq<char> {
    "TCMP"@
}

/// The comment description that marks the normalization comment.
pub open spec fn itunnorm_name() -> Seq<char> {
    "iTunNORM"@
}

/// The language the normalization comment is written under.
pub open spec fn norm_comment_lang() -> Seq<char> {
    "eng"@
}

/// The freeform mean the normalization value is stored under.
pub open spec fn itunes_mean() -> Seq<char> {
    "com.apple.iTunes"@
}

/// The four-character code of the compilation flag of an MPEG-4 tag.
pub open spec fn cpil_code() -> Seq<u8> {
    seq![99u8, 112u8, 105u8, 108u8]
}

/// Relies on id3::TagLike::artist: the artist text of the tag, if any.
#[verifier::external_body]
fn id3_artist(tag: &id3::Tag) -> (r: Option<String>)
    ensures
        r.deep_view() == id3_artist_of(*tag),
{
    tag.artist().map(str::to_owned)
}

/// Relies on id3::TagLike::album: the album text of the tag, if any.
#[verifier::external_body]
fn id3_album(tag: &id3::Tag) -> (r: Option<String>)
    ensures
        r.deep_view() == id3_album_of(*tag),
{
    tag.album().map(str::to_owned)
}

/// Relies on id3::TagLike::get (first frame with the id), id3::frame::Frame::content
/// and id3::frame::Content::to_unknown (the frame's raw bytes): together a
/// function of the tag and the id alone.
#[verifier::external_body]
fn id3_raw_frame_data(tag: &id3::Tag, id: &str) -> (r: Option<Vec<u8>>)
    ensures
        r.deep_view() == id3_raw_data_of(*tag, id@),
{
    match tag.get(id) {
        Some(f) => match f.content().to_unknown() {
            Ok(u) => Some(u.data.clone()),
            Err(_) => None,
        },
        None => None,
    }
}

/// Relies on id3::TagLike::remove_comment: retains every frame except the
/// comment frames whose description matches, so comments under other
/// descriptions, the artist and album texts, and frames with other ids keep
/// their values.
#[verifier::external_body]
fn id3_remove_comments(tag: &mut id3::Tag, description: &str)
    ensures
        id3_comments_of(*final(tag), description@) == Seq::<(Seq<char>, Seq<char>)>::empty(),
        forall|d: Seq<char>|
            d != description@ ==> id3_comments_of(*final(tag), d) == id3_comments_of(*old(tag), d),
        id3_artist_of(*final(tag)) == id3_artist_of(*old(tag)),
        id3_album_of(*final(tag)) == id3_album_of(*old(tag)),
        forall|id: Seq<char>|
            id != comment_frame_id() ==> id3_raw_data_of(*final(tag), id) == id3_raw_data_of(
                *old(tag),
                id,
            ),
{
    tag.remove_comment(Some(description), None);
}

/// Relies on id3::TagLike::add_frame with an id3::frame::Comment: removes
/// the one comment frame with the same language and description, if any,
/// then appends the new one; every other frame keeps its value.
#[verifier::external_body]
fn id3_add_comment(tag: &mut id3::Tag, lang: &str, description: &str, text: &str)
    ensures
        id3_comments_of(*old(tag), description@) == Seq::<(Seq<char>, Seq<char>)>::empty()
            ==> id3_comments_of(*final(tag), description@) == seq![(lang@, text@)],
        forall|d: Seq<char>|
            d != description@ ==> id3_comments_of(*final(tag), d) == id3_comments_of(*old(tag), d),
        id3_artist_of(*final(tag)) == id3_artist_of(*old(tag)),
        id3_album_of(*final(tag)) == id3_album_of(*old(tag)),
        forall|id: Seq<char>|
            id != comment_frame_id() ==> id3_raw_data_of(*final(tag), id) == id3_raw_data_of(
                *old(tag),
                id,
            ),
{
    let _ = tag.add_frame(id3::frame::Comment {
        lang: lang.to_string(),
        description: description.to_string(),
        text: text.to_string(),
    });
}

/// Relies on mp4ameta::Userdata::artist: the artist text of the tag, if any.
#[verifier::external_body]
fn m4a_artist(tag: &mp4ameta::Tag) -> (r: Option<String>)
    ensures
        r.deep_view() == m4a_artist_of(*tag),
{
    tag.artist().map(str::to_owned)
}

/// Relies on mp4ameta::Userdata::album: the album text of the tag, if any.
#[verifier::external_body]
fn m4a_album(tag: &mp4ameta::Tag) -> (r: Option<String>)
    ensures
        r.deep_view() == m4a_album_of(*tag),
{
    tag.album().map(str::to_owned)
}

/// Relies on mp4ameta::Userdata::data_of and mp4ameta::Data::bytes: the raw
/// bytes of the first data entry under the given four-character code, where
/// that entry holds bytes — a function of the tag and the code alone.
#[verifier::external_body]
fn m4a_first_data_bytes(tag: &mp4ameta::Tag, c0: u8, c1: u8, c2: u8, c3: u8) -> (r: Option<
    Vec<u8>,
>)
    ensures
        r.deep_view() == m4a_bytes_of(*tag, seq![c0, c1, c2, c3]),
{
    tag.data_of(&mp4ameta::Fourcc([c0, c1, c2, c3])).next().and_then(
        |d| d.bytes().map(<[u8]>::to_vec),
    )
}

/// Relies on mp4ameta::Userdata::set_data with a freeform identifier: the
/// atom's data afterwards holds exactly the one UTF-8 value, whatever it
/// held before; atoms under other identifiers, and so the artist and album
/// texts and every four-character-code atom, keep their values.
#[verifier::external_body]
fn m4a_set_freeform(tag: &mut mp4ameta::Tag, mean: &str, name: &str, val: &str)
    ensures
        m4a_freeform_of(*final(tag), mean@, name@) == seq![val@],
        forall|m: Seq<char>, n: Seq<char>|
            m != mean@ || n != name@ ==> m4a_freeform_of(*final(tag), m, n) == m4a_freeform_of(
                *old(tag),
                m,
                n,
            ),
        m4a_artist_of(*final(tag)) == m4a_artist_of(*old(tag)),
        m4a_album_of(*final(tag)) == m4a_album_of(*old(tag)),
        forall|code: Seq<u8>| m4a_bytes_of(*final(tag), code) == m4a_bytes_of(*old(tag), code),
{
    tag.set_data(
        mp4ameta::FreeformIdent::new_borrowed(mean, name),
        mp4ameta::Data::Utf8(val.to_string()),
    );
}

/// The compilation decision on raw TCMP frame data: flagged exactly when
/// the frame exists, its content is raw, and the first byte is nonzero.
pub open spec fn spec_tcmp_compilation(data: Option<Seq<u8>>) -> bool {
    match data {
        Some(d) => d.len() > 0 && d[0] != 0,
        None => false,
    }
}

/// The compilation decision on a cpil atom's bytes: flagged exactly when
/// the atom holds a single nonzero byte.
pub open spec fn spec_cpil_compilation(data: Option<Seq<u8>>) -> bool {
    match data {
        Some(d) => d.len() == 1 && d[0] != 0,
        None => false,
    }
}

/// The compilation flag read from raw TCMP frame data.
pub fn tcmp_compilation(data: Option<&Vec<u8>>) -> (r: bool)
    ensures
        r == spec_tcmp_compilation(data.deep_view()),
{
    match data {
        Some(d) => {
            if d.len() > 0 {
                *slice_index(d.as_slice(), 0) != 0
            } else {
                false
            }
        },
        None => false,
    }
}

/// The compilation flag read from a cpil atom's bytes.  Multi-byte
/// encodings count as non-compilation.
pub fn cpil_compilation(data: Option<&Vec<u8>>) -> (r: bool)
    ensures
        r == spec_cpil_compilation(data.deep_view()),
{
    match data {
        Some(d) => d.len() == 1 && *slice_index(d.as_slice(), 0) != 0,
        None => false,
    }
}

fn slice_index<'a>(s: &'a [u8], i: usize) -> (r: &'a u8)
    requires
        i < s@.len(),
    ensures
        *r == s@[i as int],
{
    &s[i]
}

/// What a loaded audio file answers the driver: the tags that name its album
/// group, its compilation flag, and the slot for the normalization comment.
///
/// Opening a path and saving the changed tag are the caller's I/O.  The
/// contracts live on the concrete types, whose tag contents the trusted
/// names describe.
pub trait AudioFile {
    fn artist(&self) -> Option<String>;

    fn album(&self) -> Option<String>;

    fn compilation(&self) -> bool;

    fn set_normalization(&mut self, val: &str);
}

/// An MP3 file's loaded id3 tag.
pub struct Mp3File {
    tag: id3::Tag,
}

impl Mp3File {
    pub closed spec fn spec_tag(&self) -> id3::Tag {
        self.tag
    }

    pub fn new(tag: id3::Tag) -> (f: Mp3File)
        ensures
            f.spec_tag() == tag,
    {
        Mp3File { tag }
    }

    pub fn into_tag(self) -> (t: id3::Tag)
        ensures
            t == self.spec_tag(),
    {
        self.tag
    }

    pub fn tag_ref(&self) -> (t: &id3::Tag)
        ensures
            *t == self.spec_tag(),
    {
        &self.tag
    }

    /// The artist text, as the tag carries it.
    pub fn artist(&self) -> (r: Option<String>)
        ensures
            r.deep_view() == id3_artist_of(self.spec_tag()),
    {
        id3_artist(&self.tag)
    }

    /// The album text, as the tag carries it.
    pub fn album(&self) -> (r: Option<String>)
        ensures
            r.deep_view() == id3_album_of(self.spec_tag()),
    {
        id3_album(&self.tag)
    }

    /// Compilation per the TCMP frame: present with a nonzero first byte.
    pub fn compilation(&self) -> (r: bool)
        ensures
            r == spec_tcmp_compilation(id3_raw_data_of(self.spec_tag(), tcmp_frame_id())),
    {
        let data = id3_raw_frame_data(&self.tag, "TCMP");
        let r = tcmp_compilation(data.as_ref());
        proof {
            match data {
                Some(v) => {},
                None => {},
            }
        }
        r
    }

    /// Replace any prior normalization comment with the new one.
    ///
    /// Afterwards the tag holds exactly one comment under the normalization
    /// description — language "eng", text as given — while comments under
    /// other descriptions, the artist and album texts and every other frame
    /// keep their values.  A second call with the same text leaves the same
    /// state: re-running the tool only rewrites this comment.
    pub fn set_normalization(&mut self, val: &str)
        ensures
            id3_comments_of(final(self).spec_tag(), itunnorm_name()) == seq![
                (norm_comment_lang(), val@),
            ],
            forall|d: Seq<char>|
                d != itunnorm_name() ==> id3_comments_of(final(self).spec_tag(), d)
                    == id3_comments_of(old(self).spec_tag(), d),
            id3_artist_of(final(self).spec_tag()) == id3_artist_of(old(self).spec_tag()),
            id3_album_of(final(self).spec_tag()) == id3_album_of(old(self).spec_tag()),
            forall|id: Seq<char>|
                id != comment_frame_id() ==> id3_raw_data_of(final(self).spec_tag(), id)
                    == id3_raw_data_of(old(self).spec_tag(), id),
    {
        id3_remove_comments(&mut self.tag, "iTunNORM");
        id3_add_comment(&mut self.tag, "eng", "iTunNORM", val);
    }
}

impl AudioFile for Mp3File {
    fn artist(&self) -> Option<String> {
        Mp3File::artist(self)
    }

    fn album(&self) -> Option<String> {
        Mp3File::album(self)
    }

    fn compilation(&self) -> bool {
        Mp3File::compilation(self)
    }

    fn set_normalization(&mut self, val: &str) {
        Mp3File::set_normalization(self, val)
    }
}

/// An M4A file's loaded MPEG-4 metadata.
pub struct M4aFile {
    tag: mp4ameta::Tag,
}

impl M4aFile {
    pub closed spec fn spec_tag(&self) -> mp4ameta::Tag {
        self.tag
    }

    pub fn new(tag: mp4ameta::Tag) -> (f: M4aFile)
        ensures
            f.spec_tag() == tag,
    {
        M4aFile { tag }
    }

    pub fn into_tag(self) -> (t: mp4ameta::Tag)
        ensures
            t == self.spec_tag(),
    {
        self.tag
    }

    pub fn tag_ref(&self) -> (t: &mp4ameta::Tag)
        ensures
            *t == self.spec_tag(),
    {
        &self.tag
    }

    /// The artist text, as the tag carries it.
    pub fn artist(&self) -> (r: Option<String>)
        ensures
            r.deep_view() == m4a_artist_of(self.spec_tag()),
    {
        m4a_artist(&self.tag)
    }

    /// The album text, as the tag carries it.
    pub fn album(&self) -> (r: Option<String>)
        ensures
            r.deep_view() == m4a_album_of(self.spec_tag()),
    {
        m4a_album(&self.tag)
    }

    /// Compilation per the cpil atom: a single nonzero byte.
    pub fn compilation(&self) -> (r: bool)
        ensures
            r == spec_cpil_compilation(m4a_bytes_of(self.spec_tag(), cpil_code())),
    {
        // The four-character code "cpil".
        let data = m4a_first_data_bytes(&self.tag, 99, 112, 105, 108);
        let r = cpil_compilation(data.as_ref());
        proof {
            match data {
                Some(v) => {},
                None => {},
            }
        }
        r
    }

    /// Replace any prior normalization value with the new one.
    ///
    /// Afterwards the freeform atom under the iTunes mean holds exactly the
    /// one given value, while other atoms, the artist and album texts and
    /// every four-character-code atom keep their values.  A second call with
    /// the same text leaves the same state: re-running the tool only
    /// rewrites this atom.
    pub fn set_normalization(&mut self, val: &str)
        ensures
            m4a_freeform_of(final(self).spec_tag(), itunes_mean(), itunnorm_name()) == seq![val@],
            forall|m: Seq<char>, n: Seq<char>|
                m != itunes_mean() || n != itunnorm_name() ==> m4a_freeform_of(
                    final(self).spec_tag(),
                    m,
                    n,
                ) == m4a_freeform_of(old(self).spec_tag(), m, n),
            m4a_artist_of(final(self).spec_tag()) == m4a_artist_of(old(self).spec_tag()),
            m4a_album_of(final(self).spec_tag()) == m4a_album_of(old(self).spec_tag()),
            forall|code: Seq<u8>|
                m4a_bytes_of(final(self).spec_tag(), code) == m4a_bytes_of(
                    old(self).spec_tag(),
                    code,
                ),
    {
        m4a_set_freeform(&mut self.tag, "com.apple.iTunes", "iTunNORM", val);
    }
}

impl AudioFile for M4aFile {
    fn artist(&self) -> Option<String> {
        M4aFile::artist(self)
    }

    fn album(&self) -> Option<String> {
        M4aFile::album(self)
    }

    fn compilation(&self) -> bool {
        M4aFile::compilation(self)
    }

    fn set_normalization(&mut self, val: &str) {
        M4aFile::set_normalization(self, val)
    }
}

} // verus!
