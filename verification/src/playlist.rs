use crate::error::PipelineError;
use crate::uri::{resolve_uri, resolved, text_of};
use m3u8_rs::Playlist;
use vstd::prelude::*;

verus! {

/// Frame size of a variant, in pixels.
#[derive(Clone, Copy, Debug, PartialEq, Eq, Structural)]
pub struct Resolution {
    pub width: u64,
    pub height: u64,
}

/// One quality option of a master manifest.
#[derive(Clone, Debug, PartialEq, Eq)]
pub struct Variant {
    pub uri: String,
    /// Bits per second.
    pub bandwidth: u64,
    pub resolution: Option<Resolution>,
}

/// What a segment says of the key that decrypts it.
#[derive(Clone, Debug, PartialEq, Eq)]
pub struct KeyRef {
    pub uri: Option<String>,
    /// The initialization vector in hexadecimal, as the manifest has it.
    pub iv: Option<String>,
}

/// One chunk of the stream. Its position in the manifest is its index.
#[derive(Clone, Debug, PartialEq, Eq)]
pub struct Segment {
    pub uri: String,
    pub key: Option<KeyRef>,
}

/// A resolved manifest: quality variants, or the segments of one stream.
#[derive(Clone, Debug, PartialEq, Eq)]
pub enum Manifest {
    Master(Vec<Variant>),
    Media(Vec<Segment>),
}

/// What a `Variant` holds.
pub struct VariantModel {
    pub uri: Seq<char>,
    pub bandwidth: u64,
    pub resolution: Option<Resolution>,
}

/// What a `KeyRef` holds.
pub struct KeyRefModel {
    pub uri: Option<Seq<char>>,
    pub iv: Option<Seq<char>>,
}

/// What a `Segment` holds.
pub struct SegmentModel {
    pub uri: Seq<char>,
    pub key: Option<KeyRefModel>,
}

/// What a `Manifest` holds.
pub enum ManifestModel {
    Master(Seq<VariantModel>),
    Media(Seq<SegmentModel>),
}

impl View for Variant {
    type V = VariantModel;

    open spec fn view(&self) -> VariantModel {
        VariantModel { uri: self.uri@, bandwidth: self.bandwidth, resolution: self.resolution }
    }
}

impl View for KeyRef {
    type V = KeyRefModel;

    open spec fn view(&self) -> KeyRefModel {
        KeyRefModel {
            uri: match self.uri {
                Some(u) => Some(u@),
                None => None,
            },
            iv: match self.iv {
                Some(v) => Some(v@),
                None => None,
            },
        }
    }
}

impl View for Segment {
    type V = SegmentModel;

    open spec fn view(&self) -> SegmentModel {
        SegmentModel {
            uri: self.uri@,
            key: match self.key {
                Some(k) => Some(k@),
                None => None,
            },
        }
    }
}

impl View for Manifest {
    type V = ManifestModel;

    open spec fn view(&self) -> ManifestModel {
        match self {
            Manifest::Master(variants) => ManifestModel::Master(
                Seq::new(variants@.len(), |i: int| variants@[i]@),
            ),
            Manifest::Media(segments) => ManifestModel::Media(
                Seq::new(segments@.len(), |i: int| segments@[i]@),
            ),
        }
    }
}

/// The manifest that the playlist parser reads from `bytes`; `None` where
/// it reads none.
pub uninterp spec fn playlist_parsed(bytes: Seq<u8>) -> Option<ManifestModel>;

/// Calls `m3u8_rs::parse_playlist` and moves what the library reads of the
/// playlist into a `Manifest`: of each variant its URI, bandwidth and
/// resolution, of each segment its URI and the URI and IV of its key.
///
/// Trusted: the result is the named manifest of `bytes`, `None` where the
/// parser reports an error.
#[verifier::external_body]
fn parse_playlist_bytes(bytes: &[u8]) -> (r: Option<Manifest>)
    ensures
        r matches Some(m) ==> playlist_parsed(bytes@) == Some(m@),
        r is None ==> playlist_parsed(bytes@) is None,
{
    match m3u8_rs::parse_playlist(bytes).ok()?.1 {
        Playlist::MasterPlaylist(m) => Some(Manifest::Master(m.variants.into_iter().map(|v| Variant {
            uri: v.uri,
            bandwidth: v.bandwidth,
            resolution: v.resolution.map(|r| Resolution { width: r.width, height: r.height }),
        }).collect())),
        Playlist::MediaPlaylist(m) => Some(Manifest::Media(m.segments.into_iter().map(|s| Segment {
            uri: s.uri,
            key: s.key.map(|k| KeyRef { uri: k.uri, iv: k.iv }),
        }).collect())),
    }
}

/// Turns the parser's answer into the manifest or the job's error.
pub fn manifest_from(parsed: Option<Manifest>) -> (r: Result<Manifest, PipelineError>)
    ensures
        parsed matches Some(m) ==> r == Ok::<Manifest, PipelineError>(m),
        parsed is None ==> r == Err::<Manifest, PipelineError>(PipelineError::ManifestParse),
{
    match parsed {
        Some(m) => Ok(m),
        None => Err(PipelineError::ManifestParse),
    }
}

/// Reads a manifest from the bytes of a playlist. Fails with
/// `ManifestParse` where the bytes are no playlist.
pub fn load_manifest(bytes: &[u8]) -> (r: Result<Manifest, PipelineError>)
    ensures
        r is Ok <==> playlist_parsed(bytes@) is Some,
        r matches Ok(m) ==> playlist_parsed(bytes@) == Some(m@),
        r matches Err(e) ==> e == PipelineError::ManifestParse,
{
    manifest_from(parse_playlist_bytes(bytes))
}

/// Pixel count of a variant's frame; 0 where the manifest gives no resolution.
pub open spec fn area(v: Variant) -> int {
    match v.resolution {
        Some(r) => r.width * r.height,
        None => 0,
    }
}

/// `a` ranks strictly below `b`: by area first, by bandwidth among equal areas.
pub open spec fn ranks_below(a: Variant, b: Variant) -> bool {
    area(a) < area(b) || (area(a) == area(b) && a.bandwidth < b.bandwidth)
}

/// `i` is the position selection picks: no variant ranks above it, and
/// every later one ranks strictly below it.
pub open spec fn is_best(variants: Seq<Variant>, i: int) -> bool {
    &&& 0 <= i < variants.len()
    &&& forall|j: int| 0 <= j < i ==> !ranks_below(variants[i], #[trigger] variants[j])
    &&& forall|j: int| i < j < variants.len() ==> ranks_below(#[trigger] variants[j], variants[i])
}

/// The position selection picks in a list that is not empty.
pub open spec fn best_index(variants: Seq<Variant>) -> int {
    choose|i: int| is_best(variants, i)
}

fn variant_area(v: &Variant) -> (a: u128)
    ensures
        a == area(*v),
{
    match v.resolution {
        Some(r) => {
            assert(r.width * r.height <= u128::MAX) by (nonlinear_arith)
                requires
                    r.width <= u64::MAX,
                    r.height <= u64::MAX,
            ;
            (r.width as u128) * (r.height as u128)
        },
        None => 0,
    }
}

/// Position of the best variant, or `None` for an empty list.
pub fn best_variant_index(variants: &[Variant]) -> (r: Option<usize>)
    ensures
        r is None <==> variants@.len() == 0,
        r matches Some(i) ==> is_best(variants@, i as int) && i == best_index(variants@),
{
    if variants.len() == 0 {
        return None;
    }
    let mut best: usize = 0;
    let mut best_area: u128 = variant_area(&variants[0]);
    let mut i: usize = 1;
    while i < variants.len()
        invariant
            1 <= i <= variants@.len(),
            best < i,
            best_area == area(variants@[best as int]),
            forall|j: int| 0 <= j < best ==> !ranks_below(variants@[best as int], #[trigger] variants@[j]),
            forall|j: int| best < j < i ==> ranks_below(#[trigger] variants@[j], variants@[best as int]),
        decreases variants@.len() - i,
    {
        let a: u128 = variant_area(&variants[i]);
        let below: bool = a < best_area || (a == best_area && variants[i].bandwidth
            < variants[best].bandwidth);
        if !below {
            best = i;
            best_area = a;
        }
        i = i + 1;
    }
    proof {
        assert(is_best(variants@, best as int));
        lemma_best_is_unique(variants@, best as int, best_index(variants@));
    }
    Some(best)
}

/// Chooses the variant with the largest frame area, and among those of the
/// largest area the one with the highest bandwidth; among variants equal in
/// both, the last. Fails on an empty list.
pub fn select_best_variant(variants: &[Variant]) -> (r: Result<&Variant, PipelineError>)
    ensures
        r is Err <==> variants@.len() == 0,
        r matches Err(e) ==> e == PipelineError::NoVariants,
        r matches Ok(v) ==> is_best(variants@, best_index(variants@)) && *v == variants@[best_index(
            variants@,
        )],
{
    match best_variant_index(variants) {
        Some(i) => Ok(&variants[i]),
        None => Err(PipelineError::NoVariants),
    }
}

/// The variant at the best position is a maximum: no variant of the list
/// ranks above it.
pub proof fn lemma_best_is_maximal(variants: Seq<Variant>, i: int)
    requires
        is_best(variants, i),
    ensures
        forall|j: int| 0 <= j < variants.len() ==> !ranks_below(variants[i], #[trigger] variants[j]),
{
    assert forall|j: int| 0 <= j < variants.len() implies !ranks_below(
        variants[i],
        #[trigger] variants[j],
    ) by {
        if j > i {
            assert(ranks_below(variants[j], variants[i]));
        }
    }
}

/// At most one position is the best one, so selection is determined by the list.
pub proof fn lemma_best_is_unique(variants: Seq<Variant>, i: int, j: int)
    requires
        is_best(variants, i),
        is_best(variants, j),
    ensures
        i == j,
{
    if i < j {
        assert(ranks_below(variants[j], variants[i]));
        assert(!ranks_below(variants[j], variants[i]));
    } else if j < i {
        assert(ranks_below(variants[i], variants[j]));
        assert(!ranks_below(variants[i], variants[j]));
    }
}

/// Where the media manifest is to be had from, given a resolved manifest: a
/// media manifest is at hand already; for a master manifest it is the
/// location of the best variant, resolved against the base.
pub open spec fn media_location_of(manifest: Manifest, base: Option<Seq<char>>) -> Result<
    Option<Seq<char>>,
    PipelineError,
> {
    match manifest {
        Manifest::Media(_) => Ok(None),
        Manifest::Master(variants) => if variants@.len() == 0 {
            Err(PipelineError::NoVariants)
        } else {
            match resolved(base, variants@[best_index(variants@)].uri@) {
                Ok(u) => Ok(Some(u)),
                Err(e) => Err(e),
            }
        },
    }
}

/// Says where the media manifest is: `None` where `manifest` is one
/// itself, else the absolute location of the best variant. Fails with
/// `NoVariants` on a master manifest without variants, and with the
/// resolution's error where the variant's location cannot be resolved.
pub fn media_location(manifest: &Manifest, base: Option<&str>) -> (r: Result<
    Option<String>,
    PipelineError,
>)
    ensures
        match media_location_of(*manifest, text_of(base)) {
            Ok(Some(u)) => r matches Ok(Some(s)) && s@ == u,
            Ok(None) => r matches Ok(None),
            Err(e) => r matches Err(x) && x == e,
        },
{
    match manifest {
        Manifest::Media(_) => Ok(None),
        Manifest::Master(variants) => {
            match best_variant_index(variants.as_slice()) {
                None => Err(PipelineError::NoVariants),
                Some(i) => {
                    match resolve_uri(base, variants[i].uri.as_str()) {
                        Ok(u) => Ok(Some(u)),
                        Err(e) => Err(e),
                    }
                },
            }
        },
    }
}

} // verus!
