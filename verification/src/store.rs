//! The listing store: listings and the pictures they own, with transactional
//! creation (all rows appear, or none), summary and detail queries, and the
//! referential invariant that every picture belongs to an existing listing.

use vstd::prelude::*;

use crate::codec::{b64_of, decode_payload, encode_payload};
use crate::errors::Error;
use crate::ids::{fresh_id, parse_listing_id, uuid_of_text};
use crate::transcode::{thumbnail_of, transcode, valid_image};

verus! {

/// Width of the bounding box that derived thumbnails must fit.
pub const THUMB_MAX_WIDTH: u32 = 200;

/// Height of the bounding box that derived thumbnails must fit.
pub const THUMB_MAX_HEIGHT: u32 = 200;

/// A stored listing: descriptive fields under a unique identifier.
#[derive(Debug)]
pub struct Listing {
    pub id: u128,
    pub name: String,
    pub phone: String,
    pub full_name: String,
    pub metro_station: String,
    /// Bit pattern of the non-negative 32-bit floating-point distance to the
    /// nearest transit station; the store never computes with it.
    pub metro_distance_bits: u32,
}

/// A stored picture: an original image payload and the thumbnail derived
/// from it at creation time, owned by exactly one listing.
#[derive(Debug)]
pub struct Picture {
    pub id: u128,
    pub listing_id: u128,
    pub original: Vec<u8>,
    pub thumbnail: Vec<u8>,
}

/// The client payload for creating a listing: descriptive fields and the
/// transport-encoded images, in the order they should be stored.
#[derive(Debug)]
pub struct RealtorObjectPayload {
    pub name: String,
    pub phone: String,
    pub full_name: String,
    pub metro_station: String,
    pub metro_distance_bits: u32,
    pub images: Vec<String>,
}

/// The identifier handed back after a successful creation.
#[derive(Debug)]
pub struct CreatedEntity {
    pub id: u128,
}

/// A lightweight view of one listing: scalar fields plus the encoded
/// thumbnails of its pictures.
#[derive(Debug)]
pub struct RealtorObjectSummary {
    pub id: u128,
    pub name: String,
    pub metro_station: String,
    pub metro_distance_bits: u32,
    pub thumbnails: Vec<String>,
}

/// The full view of one listing: every field plus the encoded original
/// images of its pictures.
#[derive(Debug)]
pub struct RealtorObjectDetails {
    pub id: u128,
    pub name: String,
    pub phone: String,
    pub full_name: String,
    pub metro_station: String,
    pub metro_distance_bits: u32,
    pub images: Vec<String>,
}

/// What every creation payload must satisfy: all text fields non-empty and
/// the distance bit pattern non-negative (sign bit clear).
pub open spec fn wf_payload(p: RealtorObjectPayload) -> bool {
    &&& p.name@.len() > 0
    &&& p.phone@.len() > 0
    &&& p.full_name@.len() > 0
    &&& p.metro_station@.len() > 0
    &&& p.metro_distance_bits < 0x8000_0000
}

/// Well-formedness of a stored listing's fields.
pub open spec fn wf_listing(l: Listing) -> bool {
    &&& l.name@.len() > 0
    &&& l.phone@.len() > 0
    &&& l.full_name@.len() > 0
    &&& l.metro_station@.len() > 0
    &&& l.metro_distance_bits < 0x8000_0000
}

/// A stored picture is never without its thumbnail: the original decodes as
/// an image and the thumbnail is exactly the rendering derived from it.
pub open spec fn wf_picture(p: Picture) -> bool {
    &&& valid_image(p.original@)
    &&& p.thumbnail@ == thumbnail_of(p.original@, THUMB_MAX_WIDTH, THUMB_MAX_HEIGHT)
}

/// Whether some listing carries the given identifier.
pub open spec fn has_listing(listings: Seq<Listing>, id: u128) -> bool {
    exists|i: int| 0 <= i < listings.len() && listings[i].id == id
}

/// Whether some picture carries the given identifier.
pub open spec fn has_picture(pics: Seq<Picture>, id: u128) -> bool {
    exists|i: int| 0 <= i < pics.len() && pics[i].id == id
}

/// The pictures owned by one listing, in storage (insertion) order.
pub open spec fn pics_for(pics: Seq<Picture>, lid: u128) -> Seq<Picture>
    decreases pics.len(),
{
    if pics.len() == 0 {
        Seq::empty()
    } else if pics.last().listing_id == lid {
        pics_for(pics.drop_last(), lid).push(pics.last())
    } else {
        pics_for(pics.drop_last(), lid)
    }
}

/// Identifiers a creation may use: the listing identifier is taken by no
/// existing listing, and the picture identifiers are pairwise distinct and
/// taken by no existing picture.
pub open spec fn ids_available(s: Store, lid: u128, pids: Seq<u128>) -> bool {
    &&& !has_listing(s.listings@, lid)
    &&& fresh_picture_ids(s.pictures@, pids)
}

/// The picture identifiers are pairwise distinct and none is in use.
pub open spec fn fresh_picture_ids(pics: Seq<Picture>, pids: Seq<u128>) -> bool {
    &&& forall|i: int| 0 <= i < pids.len() ==> !has_picture(pics, #[trigger] pids[i])
    &&& forall|i: int, j: int| 0 <= i < j < pids.len() ==> pids[i] != pids[j]
}

/// The listing row that a successful creation appends.
pub open spec fn listing_of(lid: u128, p: RealtorObjectPayload) -> Listing {
    Listing {
        id: lid,
        name: p.name,
        phone: p.phone,
        full_name: p.full_name,
        metro_station: p.metro_station,
        metro_distance_bits: p.metro_distance_bits,
    }
}

/// The picture row appended for one supplied image: its identifier, its
/// owner, the original bytes, and the derived thumbnail.
pub open spec fn picture_matches(pic: Picture, pid: u128, lid: u128, original: Seq<u8>) -> bool {
    &&& pic.id == pid
    &&& pic.listing_id == lid
    &&& pic.original@ == original
    &&& pic.thumbnail@ == thumbnail_of(original, THUMB_MAX_WIDTH, THUMB_MAX_HEIGHT)
}

/// How a detail record reflects one listing and the picture table: the
/// scalar fields are the listing's, and the images are the encoded originals
/// of exactly that listing's pictures, in storage order.
pub open spec fn detail_matches(d: RealtorObjectDetails, l: Listing, pics: Seq<Picture>) -> bool {
    &&& d.id == l.id
    &&& d.name == l.name
    &&& d.phone == l.phone
    &&& d.full_name == l.full_name
    &&& d.metro_station == l.metro_station
    &&& d.metro_distance_bits == l.metro_distance_bits
    &&& d.images@.len() == pics_for(pics, l.id).len()
    &&& forall|j: int|
        0 <= j < d.images@.len() ==> d.images@[j]@ == b64_of(
            pics_for(pics, l.id)[j].original@,
        )
}

/// How a summary reflects one listing and the picture table: the scalar
/// fields are the listing's, and the thumbnails are the encoded derived
/// renderings of exactly that listing's pictures, in storage order.
pub open spec fn summary_matches(s: RealtorObjectSummary, l: Listing, pics: Seq<Picture>) -> bool {
    &&& s.id == l.id
    &&& s.name == l.name
    &&& s.metro_station == l.metro_station
    &&& s.metro_distance_bits == l.metro_distance_bits
    &&& s.thumbnails@.len() == pics_for(pics, l.id).len()
    &&& forall|j: int|
        0 <= j < s.thumbnails@.len() ==> s.thumbnails@[j]@ == b64_of(
            pics_for(pics, l.id)[j].thumbnail@,
        )
}

/// The storage context: all listings and pictures, in insertion order.
pub struct Store {
    pub listings: Vec<Listing>,
    pub pictures: Vec<Picture>,
}

impl Store {
    /// The storage invariant: identifiers are unique per table, every
    /// picture references an existing listing, every listing is well formed,
    /// and every picture carries the thumbnail derived from its original.
    pub open spec fn inv(self) -> bool {
        &&& forall|i: int, j: int|
            0 <= i < j < self.listings@.len() ==> self.listings@[i].id != self.listings@[j].id
        &&& forall|i: int, j: int|
            0 <= i < j < self.pictures@.len() ==> self.pictures@[i].id != self.pictures@[j].id
        &&& forall|i: int|
            0 <= i < self.pictures@.len() ==> has_listing(
                self.listings@,
                #[trigger] self.pictures@[i].listing_id,
            )
        &&& forall|i: int| 0 <= i < self.listings@.len() ==> wf_listing(#[trigger] self.listings@[i])
        &&& forall|i: int| 0 <= i < self.pictures@.len() ==> wf_picture(#[trigger] self.pictures@[i])
    }

    /// An empty store.
    pub fn new() -> (r: Store)
        ensures
            r.inv(),
            r.listings@.len() == 0,
            r.pictures@.len() == 0,
    {
        Store { listings: Vec::new(), pictures: Vec::new() }
    }

    /// Whether a listing with this identifier exists.
    pub fn contains_listing(&self, id: u128) -> (r: bool)
        ensures
            r == has_listing(self.listings@, id),
    {
        let mut i: usize = 0;
        while i < self.listings.len()
            invariant
                i <= self.listings@.len(),
                forall|k: int| 0 <= k < i ==> self.listings@[k].id != id,
            decreases self.listings@.len() - i,
        {
            if self.listings[i].id == id {
                return true;
            }
            i += 1;
        }
        false
    }

    /// Whether a picture with this identifier exists.
    fn contains_picture(&self, id: u128) -> (r: bool)
        ensures
            r == has_picture(self.pictures@, id),
    {
        let mut i: usize = 0;
        while i < self.pictures.len()
            invariant
                i <= self.pictures@.len(),
                forall|k: int| 0 <= k < i ==> self.pictures@[k].id != id,
            decreases self.pictures@.len() - i,
        {
            if self.pictures[i].id == id {
                return true;
            }
            i += 1;
        }
        false
    }

    /// Whether the picture identifiers are pairwise distinct and unused.
    fn picture_ids_fresh(&self, pids: &Vec<u128>) -> (r: bool)
        ensures
            r == fresh_picture_ids(self.pictures@, pids@),
    {
        let mut i: usize = 0;
        while i < pids.len()
            invariant
                i <= pids@.len(),
                forall|k: int| 0 <= k < i ==> !has_picture(self.pictures@, #[trigger] pids@[k]),
                forall|a: int, b: int| 0 <= a < b < pids@.len() && a < i ==> pids@[a] != pids@[b],
            decreases pids@.len() - i,
        {
            if self.contains_picture(pids[i]) {
                return false;
            }
            let mut j: usize = i + 1;
            while j < pids.len()
                invariant
                    i < j <= pids@.len(),
                    forall|b: int| i < b < j ==> pids@[i as int] != pids@[b],
                decreases pids@.len() - j,
            {
                if pids[i] == pids[j] {
                    return false;
                }
                j += 1;
            }
            i += 1;
        }
        true
    }

    /// Create a listing from already-decoded image bytes under the given
    /// identifiers, atomically: either the listing row and one picture row
    /// per image are appended, or the store is left exactly as it was.
    /// Succeeds if and only if the identifiers are available and every image
    /// decodes; an unavailable identifier is a storage failure, and an
    /// undecodable image is invalid image data.
    #[verifier::loop_isolation(false)]
    pub fn create_listing_decoded(
        &mut self,
        payload: &RealtorObjectPayload,
        originals: &Vec<Vec<u8>>,
        listing_id: u128,
        picture_ids: &Vec<u128>,
    ) -> (r: Result<CreatedEntity, Error>)
        requires
            old(self).inv(),
            wf_payload(*payload),
            picture_ids@.len() == originals@.len(),
        ensures
            final(self).inv(),
            r is Err ==> final(self).listings@ == old(self).listings@ && final(self).pictures@
                == old(self).pictures@,
            r is Ok <==> ids_available(*old(self), listing_id, picture_ids@) && (forall|k: int|
                0 <= k < originals@.len() ==> valid_image(#[trigger] originals@[k]@)),
            (r is Err && r->Err_0 == Error::StorageFailure) <==> !ids_available(
                *old(self),
                listing_id,
                picture_ids@,
            ),
            r is Err ==> r->Err_0 == Error::StorageFailure || (r->Err_0 == Error::InvalidImageData
                && exists|k: int| 0 <= k < originals@.len() && !valid_image(
                #[trigger] originals@[k]@,
            )),
            r is Ok ==> r->Ok_0.id == listing_id,
            r is Ok ==> final(self).listings@ == old(self).listings@.push(
                listing_of(listing_id, *payload),
            ),
            r is Ok ==> final(self).pictures@.len() == old(self).pictures@.len()
                + originals@.len(),
            r is Ok ==> forall|k: int|
                0 <= k < old(self).pictures@.len()
                    ==> final(self).pictures@[k] == old(self).pictures@[k],
            r is Ok ==> forall|k: int|
                0 <= k < originals@.len() ==> picture_matches(
                    #[trigger] final(self).pictures@[old(self).pictures@.len() + k],
                    picture_ids@[k],
                    listing_id,
                    originals@[k]@,
                ),
    {
        if self.contains_listing(listing_id) {
            return Err(Error::StorageFailure);
        }
        if !self.picture_ids_fresh(picture_ids) {
            return Err(Error::StorageFailure);
        }
        // Derive every thumbnail before touching the store, so that any
        // failure leaves it unchanged.
        let mut thumbs: Vec<Vec<u8>> = Vec::new();
        let mut i: usize = 0;
        while i < originals.len()
            invariant
                i <= originals@.len(),
                thumbs@.len() == i,
                forall|k: int| 0 <= k < i ==> valid_image(#[trigger] originals@[k]@),
                forall|k: int|
                    0 <= k < i ==> #[trigger] thumbs@[k]@ == thumbnail_of(
                        originals@[k]@,
                        THUMB_MAX_WIDTH,
                        THUMB_MAX_HEIGHT,
                    ),
            decreases originals@.len() - i,
        {
            match transcode(&originals[i], THUMB_MAX_WIDTH, THUMB_MAX_HEIGHT) {
                Ok(t) => thumbs.push(t),
                Err(_) => return Err(Error::InvalidImageData),
            }
            i += 1;
        }
        let listing = Listing {
            id: listing_id,
            name: payload.name.clone(),
            phone: payload.phone.clone(),
            full_name: payload.full_name.clone(),
            metro_station: payload.metro_station.clone(),
            metro_distance_bits: payload.metro_distance_bits,
        };
        self.listings.push(listing);
        let ghost pre_pics = self.pictures@;
        let mut j: usize = 0;
        while j < originals.len()
            invariant
                j <= originals@.len(),
                picture_ids@.len() == originals@.len(),
                thumbs@.len() == originals@.len(),
                self.listings@ == old(self).listings@.push(listing_of(listing_id, *payload)),
                pre_pics == old(self).pictures@,
                self.pictures@.len() == pre_pics.len() + j,
                forall|k: int| 0 <= k < pre_pics.len() ==> self.pictures@[k] == pre_pics[k],
                forall|k: int|
                    0 <= k < j ==> picture_matches(
                        #[trigger] self.pictures@[pre_pics.len() + k],
                        picture_ids@[k],
                        listing_id,
                        originals@[k]@,
                    ),
                forall|k: int| 0 <= k < originals@.len() ==> valid_image(#[trigger] originals@[k]@),
                forall|k: int|
                    0 <= k < originals@.len() ==> #[trigger] thumbs@[k]@ == thumbnail_of(
                        originals@[k]@,
                        THUMB_MAX_WIDTH,
                        THUMB_MAX_HEIGHT,
                    ),
            decreases originals@.len() - j,
        {
            let pic = Picture {
                id: picture_ids[j],
                listing_id,
                original: clone_bytes(&originals[j]),
                thumbnail: clone_bytes(&thumbs[j]),
            };
            self.pictures.push(pic);
            j += 1;
        }
        proof {
            lemma_create_preserves_inv(
                *old(self),
                *self,
                *payload,
                listing_id,
                picture_ids@,
                originals@,
            );
        }
        Ok(CreatedEntity { id: listing_id })
    }

    /// Create a listing from the client payload: decode each transport-encoded
    /// image, draw fresh identifiers, derive a thumbnail per image, and append
    /// the listing with all its pictures atomically. On any failure nothing of
    /// the attempt remains visible. Text that encodes no byte sequence is a
    /// malformed encoding; bytes that decode as no supported image are invalid
    /// image data; an identifier collision is a storage failure.
    #[verifier::loop_isolation(false)]
    pub fn create_listing(&mut self, payload: &RealtorObjectPayload) -> (r: Result<
        CreatedEntity,
        Error,
    >)
        requires
            old(self).inv(),
            wf_payload(*payload),
        ensures
            final(self).inv(),
            r is Err ==> final(self).listings@ == old(self).listings@ && final(self).pictures@
                == old(self).pictures@,
            r is Err ==> r->Err_0 == Error::MalformedEncoding || r->Err_0
                == Error::InvalidImageData || r->Err_0 == Error::StorageFailure,
            r is Err && r->Err_0 == Error::MalformedEncoding ==> exists|k: int|
                0 <= k < payload.images@.len() && (forall|b: Seq<u8>| #[trigger] payload.images@[k]@
                    != b64_of(b)),
            r is Ok ==> {
                let id = r->Ok_0.id;
                let base = old(self).pictures@.len();
                let n = payload.images@.len();
                &&& !has_listing(old(self).listings@, id)
                &&& final(self).listings@ == old(self).listings@.push(listing_of(id, *payload))
                &&& final(self).pictures@.len() == base + n
                &&& (forall|k: int|
                    0 <= k < base ==> final(self).pictures@[k] == old(self).pictures@[k])
                &&& (forall|k: int|
                    0 <= k < n ==> (#[trigger] final(self).pictures@[base + k]).listing_id == id)
                &&& (forall|k: int|
                    0 <= k < n ==> valid_image(#[trigger] final(self).pictures@[base + k].original@)
                        && final(self).pictures@[base + k].thumbnail@ == thumbnail_of(
                        final(self).pictures@[base + k].original@,
                        THUMB_MAX_WIDTH,
                        THUMB_MAX_HEIGHT,
                    ))
                &&& (forall|k: int, b: Seq<u8>|
                    #![trigger payload.images@[k], b64_of(b)]
                    0 <= k < n && payload.images@[k]@ == b64_of(b)
                        ==> final(self).pictures@[base + k].original@ == b)
            },
    {
        // Decode every transport payload before touching the store.
        let mut originals: Vec<Vec<u8>> = Vec::new();
        let mut i: usize = 0;
        while i < payload.images.len()
            invariant
                i <= payload.images@.len(),
                originals@.len() == i,
                forall|k: int, b: Seq<u8>|
                    #![trigger payload.images@[k], b64_of(b)]
                    0 <= k < i && payload.images@[k]@ == b64_of(b) ==> originals@[k]@ == b,
            decreases payload.images@.len() - i,
        {
            match decode_payload(payload.images[i].as_str()) {
                Ok(bytes) => originals.push(bytes),
                Err(_) => return Err(Error::MalformedEncoding),
            }
            i += 1;
        }
        let listing_id = fresh_id();
        let mut picture_ids: Vec<u128> = Vec::new();
        let mut j: usize = 0;
        while j < originals.len()
            invariant
                j <= originals@.len(),
                picture_ids@.len() == j,
            decreases originals@.len() - j,
        {
            picture_ids.push(fresh_id());
            j += 1;
        }
        self.create_listing_decoded(payload, &originals, listing_id, &picture_ids)
    }

    /// Fetch one listing with the encoded originals of all its pictures.
    /// Succeeds if and only if the listing exists; a missing listing is
    /// reported as not found, never as any other error.
    pub fn get_detail(&self, id: u128) -> (r: Result<RealtorObjectDetails, Error>)
        requires
            self.inv(),
        ensures
            r is Ok <==> has_listing(self.listings@, id),
            r is Err ==> r->Err_0 == Error::NotFound,
            r is Ok ==> r->Ok_0.id == id && exists|i: int|
                0 <= i < self.listings@.len() && (#[trigger] self.listings@[i]).id == id
                    && detail_matches(r->Ok_0, self.listings@[i], self.pictures@),
    {
        let mut i: usize = 0;
        while i < self.listings.len()
            invariant
                i <= self.listings@.len(),
                forall|k: int| 0 <= k < i ==> (#[trigger] self.listings@[k]).id != id,
            decreases self.listings@.len() - i,
        {
            if self.listings[i].id == id {
                let images = self.encoded_originals_for(id);
                let l = &self.listings[i];
                return Ok(
                    RealtorObjectDetails {
                        id: l.id,
                        name: l.name.clone(),
                        phone: l.phone.clone(),
                        full_name: l.full_name.clone(),
                        metro_station: l.metro_station.clone(),
                        metro_distance_bits: l.metro_distance_bits,
                        images,
                    },
                );
            }
            i += 1;
        }
        Err(Error::NotFound)
    }

    /// Fetch one listing by the textual form of its identifier: text that is
    /// no well-formed identifier is rejected before the store is consulted.
    pub fn get_detail_str(&self, id_text: &str) -> (r: Result<RealtorObjectDetails, Error>)
        requires
            self.inv(),
        ensures
            uuid_of_text(id_text@) is None ==> r is Err && r->Err_0
                == Error::InvalidIdentifierFormat,
            uuid_of_text(id_text@) is Some ==> {
                let id = uuid_of_text(id_text@)->Some_0;
                &&& (r is Ok <==> has_listing(self.listings@, id))
                &&& (r is Err ==> r->Err_0 == Error::NotFound)
                &&& (r is Ok ==> r->Ok_0.id == id && exists|i: int|
                    0 <= i < self.listings@.len() && (#[trigger] self.listings@[i]).id == id
                        && detail_matches(r->Ok_0, self.listings@[i], self.pictures@))
            },
    {
        match parse_listing_id(id_text) {
            Ok(id) => self.get_detail(id),
            Err(e) => Err(e),
        }
    }

    /// List every listing as a summary carrying its encoded thumbnails, in
    /// insertion order.
    pub fn list_summaries(&self) -> (r: Vec<RealtorObjectSummary>)
        requires
            self.inv(),
        ensures
            r@.len() == self.listings@.len(),
            forall|i: int|
                0 <= i < r@.len() ==> summary_matches(
                    #[trigger] r@[i],
                    self.listings@[i],
                    self.pictures@,
                ),
    {
        let mut result: Vec<RealtorObjectSummary> = Vec::new();
        let mut i: usize = 0;
        while i < self.listings.len()
            invariant
                i <= self.listings@.len(),
                result@.len() == i,
                forall|k: int|
                    0 <= k < i ==> summary_matches(
                        #[trigger] result@[k],
                        self.listings@[k],
                        self.pictures@,
                    ),
            decreases self.listings@.len() - i,
        {
            let thumbnails = self.encoded_thumbnails_for(self.listings[i].id);
            let l = &self.listings[i];
            result.push(
                RealtorObjectSummary {
                    id: l.id,
                    name: l.name.clone(),
                    metro_station: l.metro_station.clone(),
                    metro_distance_bits: l.metro_distance_bits,
                    thumbnails,
                },
            );
            i += 1;
        }
        result
    }

    /// The encoded originals of one listing's pictures, in storage order.
    fn encoded_originals_for(&self, lid: u128) -> (r: Vec<String>)
        ensures
            r@.len() == pics_for(self.pictures@, lid).len(),
            forall|j: int|
                0 <= j < r@.len() ==> #[trigger] r@[j]@ == b64_of(
                    pics_for(self.pictures@, lid)[j].original@,
                ),
    {
        let mut result: Vec<String> = Vec::new();
        let mut i: usize = 0;
        while i < self.pictures.len()
            invariant
                i <= self.pictures@.len(),
                result@.len() == pics_for(self.pictures@.take(i as int), lid).len(),
                forall|j: int|
                    0 <= j < result@.len() ==> #[trigger] result@[j]@ == b64_of(
                        pics_for(self.pictures@.take(i as int), lid)[j].original@,
                    ),
            decreases self.pictures@.len() - i,
        {
            proof {
                assert(self.pictures@.take(i + 1).drop_last() =~= self.pictures@.take(i as int));
                assert(self.pictures@.take(i + 1).last() == self.pictures@[i as int]);
            }
            if self.pictures[i].listing_id == lid {
                result.push(encode_payload(&self.pictures[i].original));
            }
            i += 1;
        }
        proof {
            assert(self.pictures@.take(self.pictures@.len() as int) =~= self.pictures@);
        }
        result
    }

    /// The encoded thumbnails of one listing's pictures, in storage order.
    fn encoded_thumbnails_for(&self, lid: u128) -> (r: Vec<String>)
        ensures
            r@.len() == pics_for(self.pictures@, lid).len(),
            forall|j: int|
                0 <= j < r@.len() ==> #[trigger] r@[j]@ == b64_of(
                    pics_for(self.pictures@, lid)[j].thumbnail@,
                ),
    {
        let mut result: Vec<String> = Vec::new();
        let mut i: usize = 0;
        while i < self.pictures.len()
            invariant
                i <= self.pictures@.len(),
                result@.len() == pics_for(self.pictures@.take(i as int), lid).len(),
                forall|j: int|
                    0 <= j < result@.len() ==> #[trigger] result@[j]@ == b64_of(
                        pics_for(self.pictures@.take(i as int), lid)[j].thumbnail@,
                    ),
            decreases self.pictures@.len() - i,
        {
            proof {
                assert(self.pictures@.take(i + 1).drop_last() =~= self.pictures@.take(i as int));
                assert(self.pictures@.take(i + 1).last() == self.pictures@[i as int]);
            }
            if self.pictures[i].listing_id == lid {
                result.push(encode_payload(&self.pictures[i].thumbnail));
            }
            i += 1;
        }
        proof {
            assert(self.pictures@.take(self.pictures@.len() as int) =~= self.pictures@);
        }
        result
    }
}

/// Copy a byte payload.
fn clone_bytes(src: &Vec<u8>) -> (r: Vec<u8>)
    ensures
        r@ == src@,
{
    let mut result: Vec<u8> = Vec::new();
    let mut i: usize = 0;
    while i < src.len()
        invariant
            i <= src@.len(),
            result@ == src@.take(i as int),
        decreases src@.len() - i,
    {
        result.push(src[i]);
        proof {
            assert(src@.take(i + 1) =~= src@.take(i as int).push(src@[i as int]));
        }
        i += 1;
    }
    proof {
        assert(src@.take(src@.len() as int) =~= src@);
    }
    result
}

/// The storage invariant survives a successful creation: the appended
/// listing is fresh and well formed, and each appended picture is fresh,
/// references it, and carries its derived thumbnail.
proof fn lemma_create_preserves_inv(
    pre: Store,
    post: Store,
    payload: RealtorObjectPayload,
    lid: u128,
    pids: Seq<u128>,
    originals: Seq<Vec<u8>>,
)
    requires
        pre.inv(),
        wf_payload(payload),
        ids_available(pre, lid, pids),
        pids.len() == originals.len(),
        forall|k: int| 0 <= k < originals.len() ==> valid_image(#[trigger] originals[k]@),
        post.listings@ == pre.listings@.push(listing_of(lid, payload)),
        post.pictures@.len() == pre.pictures@.len() + originals.len(),
        forall|k: int| 0 <= k < pre.pictures@.len() ==> post.pictures@[k] == pre.pictures@[k],
        forall|k: int|
            0 <= k < originals.len() ==> picture_matches(
                #[trigger] post.pictures@[pre.pictures@.len() + k],
                pids[k],
                lid,
                originals[k]@,
            ),
    ensures
        post.inv(),
{
    let base = pre.pictures@.len() as int;
    let ll = pre.listings@.len() as int;
    assert forall|i: int, j: int|
        0 <= i < j < post.listings@.len() implies post.listings@[i].id != post.listings@[j].id by {
        if j == ll {
            assert(!has_listing(pre.listings@, lid));
            assert(pre.listings@[i].id != lid);
        }
    }
    assert forall|i: int, j: int|
        0 <= i < j < post.pictures@.len() implies post.pictures@[i].id != post.pictures@[j].id by {
        if j < base {
        } else if i < base {
            assert(picture_matches(
                post.pictures@[base + (j - base)],
                pids[j - base],
                lid,
                originals[j - base]@,
            ));
            assert(!has_picture(pre.pictures@, pids[j - base]));
            assert(pre.pictures@[i].id != pids[j - base]);
        } else {
            assert(picture_matches(
                post.pictures@[base + (i - base)],
                pids[i - base],
                lid,
                originals[i - base]@,
            ));
            assert(picture_matches(
                post.pictures@[base + (j - base)],
                pids[j - base],
                lid,
                originals[j - base]@,
            ));
        }
    }
    assert forall|i: int|
        0 <= i < post.pictures@.len() implies has_listing(
        post.listings@,
        #[trigger] post.pictures@[i].listing_id,
    ) by {
        if i < base {
            assert(has_listing(pre.listings@, pre.pictures@[i].listing_id));
            let w = choose|w: int|
                0 <= w < pre.listings@.len() && pre.listings@[w].id == pre.pictures@[i].listing_id;
            assert(post.listings@[w].id == post.pictures@[i].listing_id);
        } else {
            assert(picture_matches(
                post.pictures@[base + (i - base)],
                pids[i - base],
                lid,
                originals[i - base]@,
            ));
            assert(post.listings@[ll].id == lid);
        }
    }
    assert forall|i: int| 0 <= i < post.listings@.len() implies wf_listing(
        #[trigger] post.listings@[i],
    ) by {
        if i < ll {
            assert(wf_listing(pre.listings@[i]));
        }
    }
    assert forall|i: int| 0 <= i < post.pictures@.len() implies wf_picture(
        #[trigger] post.pictures@[i],
    ) by {
        if i < base {
            assert(wf_picture(pre.pictures@[i]));
        } else {
            assert(picture_matches(
                post.pictures@[base + (i - base)],
                pids[i - base],
                lid,
                originals[i - base]@,
            ));
        }
    }
}

/// Referential-completeness law, ownership half: every picture that a query
/// selects for a listing references exactly that listing.
pub proof fn lemma_pics_for_listing_id(pics: Seq<Picture>, lid: u128)
    ensures
        forall|j: int|
            0 <= j < pics_for(pics, lid).len() ==> (#[trigger] pics_for(pics, lid)[j]).listing_id
                == lid,
    decreases pics.len(),
{
    if pics.len() > 0 {
        lemma_pics_for_listing_id(pics.drop_last(), lid);
        assert forall|j: int|
            0 <= j < pics_for(pics, lid).len() implies (#[trigger] pics_for(
            pics,
            lid,
        )[j]).listing_id == lid by {
            if j < pics_for(pics.drop_last(), lid).len() {
                assert(pics_for(pics, lid)[j] == pics_for(pics.drop_last(), lid)[j]);
            } else {
                assert(pics_for(pics, lid)[j] == pics.last());
            }
        }
    }
}

/// No picture is selected for a listing that nothing references: in a store
/// whose pictures all belong to existing listings, an unused identifier
/// selects nothing.
pub proof fn lemma_pics_for_unused_id(pics: Seq<Picture>, listings: Seq<Listing>, lid: u128)
    requires
        forall|i: int|
            0 <= i < pics.len() ==> has_listing(listings, #[trigger] pics[i].listing_id),
        !has_listing(listings, lid),
    ensures
        pics_for(pics, lid).len() == 0,
    decreases pics.len(),
{
    if pics.len() > 0 {
        assert(forall|i: int|
            0 <= i < pics.drop_last().len() ==> has_listing(
                listings,
                #[trigger] pics.drop_last()[i].listing_id,
            ));
        lemma_pics_for_unused_id(pics.drop_last(), listings, lid);
        assert(has_listing(listings, pics[pics.len() - 1].listing_id));
        assert(pics.last().listing_id != lid);
    }
}

/// Referential completeness at the store level: after a creation appends `n`
/// pictures for a listing nothing referenced before, the pictures a query
/// selects for that listing are exactly the appended ones — as many as the
/// images supplied, in the same order.
pub proof fn lemma_detail_after_create(pre: Store, post: Store, lid: u128, n: int)
    requires
        pre.inv(),
        !has_listing(pre.listings@, lid),
        0 <= n,
        post.pictures@.len() == pre.pictures@.len() + n,
        forall|k: int|
            0 <= k < pre.pictures@.len() ==> #[trigger] post.pictures@[k] == pre.pictures@[k],
        forall|k: int|
            0 <= k < n ==> (#[trigger] post.pictures@[pre.pictures@.len() + k]).listing_id == lid,
    ensures
        pics_for(post.pictures@, lid) == post.pictures@.subrange(
            pre.pictures@.len() as int,
            post.pictures@.len() as int,
        ),
        pics_for(post.pictures@, lid).len() == n,
{
    let base = pre.pictures@.len() as int;
    let added = post.pictures@.subrange(base, post.pictures@.len() as int);
    assert forall|i: int| 0 <= i < added.len() implies (#[trigger] added[i]).listing_id == lid by {
        assert(added[i] == post.pictures@[base + i]);
    }
    assert(post.pictures@ =~= pre.pictures@ + added);
    lemma_referential_completeness(pre.pictures@, added, pre.listings@, lid);
}

/// Referential-completeness law, round-trip half: the pictures appended for
/// a freshly created listing are exactly the ones a later query selects for
/// it — as many as were supplied, in the same order.
pub proof fn lemma_referential_completeness(
    pre: Seq<Picture>,
    added: Seq<Picture>,
    listings: Seq<Listing>,
    lid: u128,
)
    requires
        forall|i: int| 0 <= i < pre.len() ==> has_listing(listings, #[trigger] pre[i].listing_id),
        !has_listing(listings, lid),
        forall|i: int| 0 <= i < added.len() ==> (#[trigger] added[i]).listing_id == lid,
    ensures
        pics_for(pre + added, lid) == added,
    decreases added.len(),
{
    if added.len() == 0 {
        assert(pre + added =~= pre);
        lemma_pics_for_unused_id(pre, listings, lid);
        assert(pics_for(pre + added, lid) =~= added);
    } else {
        assert(forall|i: int|
            0 <= i < added.drop_last().len() ==> (#[trigger] added.drop_last()[i]).listing_id
                == lid);
        lemma_referential_completeness(pre, added.drop_last(), listings, lid);
        assert((pre + added).drop_last() =~= pre + added.drop_last());
        assert((pre + added).last() == added.last());
        assert((pre + added).last().listing_id == lid);
        assert(pics_for(pre + added, lid) == pics_for(pre + added.drop_last(), lid).push(
            added.last(),
        ));
        assert(added.drop_last().push(added.last()) =~= added);
    }
}

} // verus!
