use vstd::prelude::*;

verus! {

/// Pixels in one 28x28 image.
pub const IMAGE_SIZE: usize = 784;

/// Images stored in the data file of each digit.
pub const IMAGES_PER_FILE: usize = 1000;

/// Exact length in bytes of the data file of one digit: one byte per
/// pixel, images stored one after another.
pub const FILE_LEN: usize = 784000;

/// Number of digit classes, and so of data files (`data0` to `data9`).
pub const NUM_DIGITS: u8 = 10;

/// Labels of a set built from the files of digits `0 .. n_files` loaded in
/// order: image `k` comes from file `k / 1000` and so carries that digit.
pub open spec fn spec_labels_in_order(n_files: nat) -> Seq<u8> {
    Seq::new(n_files * IMAGES_PER_FILE as nat, |k: int| (k / IMAGES_PER_FILE as int) as u8)
}

/// The start and end of image `i` in pixel data laid out image after image.
pub open spec fn spec_image_span(i: int) -> (int, int) {
    (i * IMAGE_SIZE as int, i * IMAGE_SIZE as int + IMAGE_SIZE as int)
}

/// Range of pixel positions `start .. end` holding image `i`, or `None`
/// when the end does not fit in a `usize`.
pub fn image_span(i: usize) -> (span: Option<(usize, usize)>)
    ensures
        spec_image_span(i as int).1 <= usize::MAX ==> span == Some(
            (spec_image_span(i as int).0 as usize, spec_image_span(i as int).1 as usize),
        ),
        spec_image_span(i as int).1 > usize::MAX ==> span is None,
        i * 784 + 784 <= usize::MAX ==> span == Some(((i * 784) as usize, (i * 784 + 784) as usize)),
        i * 784 + 784 > usize::MAX ==> span is None,
{
    match i.checked_mul(IMAGE_SIZE) {
        Some(start) => match start.checked_add(IMAGE_SIZE) {
            Some(end) => Some((start, end)),
            None => None,
        },
        None => None,
    }
}

/// A labelled set of grey-scale images, one byte per pixel, built from the
/// per-digit data files. Image `k` is `pixels[k * 784 .. (k + 1) * 784]`
/// and its label is `labels[k]`.
pub struct RawMnist {
    pixels: Vec<u8>,
    labels: Vec<u8>,
}

impl View for RawMnist {
    type V = (Seq<u8>, Seq<u8>);

    closed spec fn view(&self) -> (Seq<u8>, Seq<u8>) {
        (self.pixels@, self.labels@)
    }
}

impl RawMnist {
    /// Every label has exactly one image of 784 pixels.
    #[verifier::type_invariant]
    closed spec fn inv(self) -> bool {
        self.pixels@.len() == self.labels@.len() * IMAGE_SIZE as nat
    }

    /// A set with no image.
    pub fn new() -> (s: RawMnist)
        ensures
            s@.0 == Seq::<u8>::empty(),
            s@.1 == Seq::<u8>::empty(),
    {
        RawMnist { pixels: Vec::new(), labels: Vec::new() }
    }

    /// All pixels, image after image.
    pub fn pixels(&self) -> (p: &[u8])
        ensures
            p@ == self@.0,
    {
        self.pixels.as_slice()
    }

    /// The label of each image.
    pub fn labels(&self) -> (l: &[u8])
        ensures
            l@ == self@.1,
    {
        self.labels.as_slice()
    }

    /// Number of images.
    pub fn len(&self) -> (n: usize)
        ensures
            n == self@.1.len(),
            n * IMAGE_SIZE == self@.0.len(),
    {
        proof {
            use_type_invariant(self);
        }
        self.labels.len()
    }

    /// Adds the images of the data file of `digit`, all labelled `digit`.
    /// A file that is not exactly 784000 bytes long is refused with its
    /// length, and the set is left as it was.
    pub fn append_digit_file(&mut self, digit: u8, bytes: &[u8]) -> (r: Result<(), usize>)
        requires
            old(self)@.0.len() + FILE_LEN <= usize::MAX,
        ensures
            bytes@.len() != FILE_LEN ==> r == Err::<(), usize>(bytes@.len() as usize) && final(self)@
                == old(self)@,
            bytes@.len() == FILE_LEN ==> r is Ok && final(self)@.0 == old(self)@.0 + bytes@
                && final(self)@.1 == old(self)@.1 + Seq::new(IMAGES_PER_FILE as nat, |k: int| digit),
    {
        if bytes.len() != FILE_LEN {
            return Err(bytes.len());
        }
        proof {
            use_type_invariant(&*self);
        }
        let ghost old_pixels = self.pixels@;
        let ghost old_labels = self.labels@;
        let mut taken = RawMnist::new();
        std::mem::swap(&mut taken, self);
        let RawMnist { pixels: mut pixels, labels: mut labels } = taken;
        let mut i: usize = 0;
        while i < FILE_LEN
            invariant
                bytes@.len() == FILE_LEN,
                old_pixels.len() + FILE_LEN <= usize::MAX,
                0 <= i <= FILE_LEN,
                pixels@ == old_pixels + bytes@.take(i as int),
            decreases FILE_LEN - i,
        {
            pixels.push(bytes[i]);
            i = i + 1;
            assert(pixels@ =~= old_pixels + bytes@.take(i as int));
        }
        assert(bytes@.take(FILE_LEN as int) =~= bytes@);
        let mut j: usize = 0;
        while j < IMAGES_PER_FILE
            invariant
                0 <= j <= IMAGES_PER_FILE,
                old_labels.len() * IMAGE_SIZE as nat + FILE_LEN <= usize::MAX,
                labels@ == old_labels + Seq::new(j as nat, |k: int| digit),
            decreases IMAGES_PER_FILE - j,
        {
            labels.push(digit);
            j = j + 1;
            assert(labels@ =~= old_labels + Seq::new(j as nat, |k: int| digit));
        }
        assert(pixels@.len() == labels@.len() * IMAGE_SIZE as nat) by (nonlinear_arith)
            requires
                pixels@.len() == old_pixels.len() + 784000,
                labels@.len() == old_labels.len() + 1000,
                old_pixels.len() == old_labels.len() * 784,
        ;
        *self = RawMnist { pixels, labels };
        Ok(())
    }

    /// Takes the pixels and the labels out of the set.
    pub fn into_parts(self) -> (parts: (Vec<u8>, Vec<u8>))
        ensures
            parts.0@ == self@.0,
            parts.1@ == self@.1,
            parts.0@.len() == parts.1@.len() * IMAGE_SIZE as nat,
    {
        proof {
            use_type_invariant(&self);
        }
        let RawMnist { pixels, labels } = self;
        (pixels, labels)
    }
}

/// Loading the file of digit `d` after those of digits `0 .. d` keeps
/// every image labelled with the digit of the file it came from: image
/// `k` carries label `k / 1000`.
pub proof fn lemma_labels_follow_file_order(labels: Seq<u8>, d: u8)
    requires
        labels == spec_labels_in_order(d as nat),
    ensures
        labels + Seq::new(IMAGES_PER_FILE as nat, |k: int| d) == spec_labels_in_order(d as nat + 1),
{
    let next = labels + Seq::new(IMAGES_PER_FILE as nat, |k: int| d);
    let want = spec_labels_in_order(d as nat + 1);
    assert(want.len() == next.len()) by (nonlinear_arith)
        requires
            want.len() == (d as nat + 1) * 1000,
            next.len() == d as nat * 1000 + 1000,
    ;
    assert forall|k: int| 0 <= k < next.len() implies #[trigger] next[k] == want[k] by {
        let n = d as int * 1000;
        if k < n {
            assert(next[k] == labels[k]);
        } else {
            assert(k / 1000 == d as int) by (nonlinear_arith)
                requires
                    n == d as int * 1000,
                    n <= k < n + 1000,
            ;
        }
    }
    assert(next =~= want);
}

/// Image spans tile the pixel data: the first image starts at 0, every
/// image is 784 pixels wide, each image starts where the previous one
/// ends, and the spans of distinct images do not overlap.
pub proof fn lemma_image_spans_tile(i: int, j: int)
    requires
        0 <= i,
        0 <= j,
    ensures
        spec_image_span(0).0 == 0,
        spec_image_span(i).1 - spec_image_span(i).0 == IMAGE_SIZE,
        spec_image_span(i).1 == spec_image_span(i + 1).0,
        spec_image_span(i).0 == i * IMAGE_SIZE,
        i < j ==> spec_image_span(i).1 <= spec_image_span(j).0,
{
    assert((i + 1) * 784 == i * 784 + 784) by (nonlinear_arith);
    if i < j {
        assert(i * 784 + 784 <= j * 784) by (nonlinear_arith)
            requires
                i < j,
        ;
    }
}

} // verus!
