use vstd::prelude::*;
use crate::paths::views_of;

verus! {

/// A font face of the document compiler, opaque here: parsing and metadata
/// live in the outside crate.
#[verifier::external_type_specification]
#[verifier::external_body]
pub struct ExFont(typst::text::Font);

/// The number of font faces that parse out of a raw buffer: a function of
/// the bytes alone.
pub uninterp spec fn face_count(data: Seq<u8>) -> nat;

/// Relies on typst::text::Font::iter: parses every face out of a raw font
/// buffer, deterministically from the bytes alone; a buffer holding no face
/// yields an empty run.
#[verifier::external_body]
pub fn parse_fonts(data: Vec<u8>) -> (r: Vec<typst::text::Font>)
    ensures
        r@.len() == face_count(data@),
{
    typst::text::Font::iter(typst::foundations::Bytes::new(data)).collect()
}

/// Relies on typst_assets::fonts: the embedded font bundle compiled into the
/// binary, one raw buffer per file.
#[verifier::external_body]
pub fn embedded_font_data() -> (r: Vec<Vec<u8>>)
{
    typst_assets::fonts().map(|d| d.to_vec()).collect()
}

/// Relies on typst::text::Font::clone: a face is a shared handle, and its
/// clone is the same value.
#[verifier::external_body]
pub fn clone_font(f: &typst::text::Font) -> (r: typst::text::Font)
    ensures
        r == *f,
{
    f.clone()
}

/// The total number of faces across a run of font buffers.
pub open spec fn total_faces(bufs: Seq<Seq<u8>>) -> nat
    decreases bufs.len(),
{
    if bufs.len() == 0 {
        0
    } else {
        total_faces(bufs.drop_last()) + face_count(bufs.last())
    }
}

/// The faces seeded from a run of font buffers: every face of every buffer,
/// buffer by buffer in order. The catalog a caller seeds from the embedded
/// bundle is this function applied to `embedded_font_data`.
pub fn seed_fonts(bundle: &Vec<Vec<u8>>) -> (r: Vec<typst::text::Font>)
    ensures
        r@.len() == total_faces(views_of(bundle@)),
{
    let mut fonts: Vec<typst::text::Font> = Vec::new();
    let n = bundle.len();
    let mut i: usize = 0;
    proof {
        assert(views_of(bundle@).take(0) =~= Seq::<Seq<u8>>::empty());
    }
    while i < n
        invariant
            n == bundle@.len(),
            0 <= i <= n,
            fonts@.len() == total_faces(views_of(bundle@).take(i as int)),
        decreases n - i,
    {
        let buf = crate::bytes_util::dup_bytes(&bundle[i]);
        let ghost before = fonts@.len();
        let faces = parse_fonts(buf);
        let m = faces.len();
        let mut j: usize = 0;
        while j < m
            invariant
                m == faces@.len(),
                0 <= j <= m,
                fonts@.len() == before + j,
            decreases m - j,
        {
            fonts.push(clone_font(&faces[j]));
            j += 1;
        }
        proof {
            let vs = views_of(bundle@);
            assert(vs.take(i + 1).drop_last() =~= vs.take(i as int));
            assert(vs.take(i + 1).last() == bundle@[i as int]@);
        }
        i += 1;
    }
    proof {
        assert(views_of(bundle@).take(n as int) =~= views_of(bundle@));
    }
    fonts
}

} // verus!
