//! Multi-channel images, and the transformation of image patches into
//! matrix rows that lets a convolution be expressed as a single matrix
//! multiply.

use vstd::prelude::*;

use vstd::arithmetic::div_mod::lemma_fundamental_div_mod;
use vstd::arithmetic::div_mod::lemma_mod_bound;
use vstd::arithmetic::mul::lemma_mul_inequality;

use crate::element::Element;
use crate::matrix::Matrix;

verus! {

/// A multi-channel image, laid out `[channel][height][width]`.
#[derive(Debug, Clone)]
pub struct Image<T>(pub Vec<Vec<Vec<T>>>);

impl<T> View for Image<T> {
    type V = Seq<Seq<Seq<T>>>;

    closed spec fn view(&self) -> Seq<Seq<Seq<T>>> {
        self.0@.map_values(|p: Vec<Vec<T>>| p@.map_values(|r: Vec<T>| r@))
    }
}

/// The height of an image model: the height of its first channel.
pub open spec fn iheight<T>(v: Seq<Seq<Seq<T>>>) -> nat {
    if v.len() == 0 {
        0
    } else {
        v[0].len()
    }
}

/// The width of an image model: the width of the first row of its first
/// channel.
pub open spec fn iwidth<T>(v: Seq<Seq<Seq<T>>>) -> nat {
    if v.len() == 0 || v[0].len() == 0 {
        0
    } else {
        v[0][0].len()
    }
}

/// Every channel of the image is a rectangle of one height and width.
pub open spec fn iwf<T>(v: Seq<Seq<Seq<T>>>) -> bool {
    &&& forall|c: int| 0 <= c < v.len() ==> (#[trigger] v[c]).len() == iheight(v)
    &&& forall|c: int, i: int|
        0 <= c < v.len() && 0 <= i < iheight(v) ==> (#[trigger] v[c][i]).len() == iwidth(v)
}

impl<T> Image<T> {
    pub fn channels(&self) -> (r: usize)
        ensures
            r == self@.len(),
    {
        self.0.len()
    }

    pub fn height(&self) -> (r: usize)
        requires
            self@.len() > 0,
        ensures
            r == iheight(self@),
    {
        proof {
            assert(self.0@[0]@.map_values(|r: Vec<T>| r@) == self@[0]);
        }
        self.0[0].len()
    }

    pub fn width(&self) -> (r: usize)
        requires
            self@.len() > 0,
            iheight(self@) > 0,
        ensures
            r == iwidth(self@),
    {
        proof {
            assert(self.0@[0]@.map_values(|r: Vec<T>| r@) == self@[0]);
            assert(self.0@[0]@[0]@ == self@[0][0]);
        }
        self.0[0][0].len()
    }
}

/// A window row read from one channel: `fw` pixels starting at column
/// `x0` of row `yy`, with zero for every position outside the channel.
pub open spec fn row_patch<T: Element>(
    plane: Seq<Seq<T>>,
    w: int,
    yy: int,
    x0: int,
    fw: nat,
) -> Seq<T> {
    Seq::new(
        fw,
        |j: int|
            if 0 <= yy < plane.len() && 0 <= x0 + j < w {
                plane[yy][x0 + j]
            } else {
                T::zero_spec()
            },
    )
}

/// A window read from one channel: `fh` window rows, top to bottom.
pub open spec fn chan_patch<T: Element>(
    plane: Seq<Seq<T>>,
    w: int,
    y0: int,
    x0: int,
    fh: nat,
    fw: nat,
) -> Seq<T>
    decreases fh,
{
    if fh == 0 {
        Seq::empty()
    } else {
        chan_patch(plane, w, y0, x0, (fh - 1) as nat, fw) + row_patch(
            plane,
            w,
            y0 + fh - 1,
            x0,
            fw,
        )
    }
}

/// A window read from the first `c` channels of an image, channel by
/// channel.
pub open spec fn image_patch<T: Element>(
    img: Seq<Seq<Seq<T>>>,
    w: int,
    y0: int,
    x0: int,
    fh: nat,
    fw: nat,
    c: nat,
) -> Seq<T>
    decreases c,
{
    if c == 0 {
        Seq::empty()
    } else {
        image_patch(img, w, y0, x0, fh, fw, (c - 1) as nat) + chan_patch(
            img[c - 1],
            w,
            y0,
            x0,
            fh,
            fw,
        )
    }
}

/// How many window positions fit along a dimension of size `dim` with
/// the given filter size, stride and zero padding.
pub open spec fn patch_count(dim: nat, filter: nat, stride: nat, pad: nat) -> nat {
    if dim + 2 * pad < filter {
        0
    } else {
        (((dim + 2 * pad - filter) / (stride as int)) + 1) as nat
    }
}

/// The first `kxn` matrix rows contributed by the window positions of one
/// horizontal stripe (fixed `ky`) of an image, left to right.
pub open spec fn stripe_rows<T: Element>(
    img: Seq<Seq<Seq<T>>>,
    fh: nat,
    fw: nat,
    stride: nat,
    pad: nat,
    ky: int,
    kxn: nat,
) -> Seq<Seq<T>> {
    Seq::new(
        kxn,
        |kx: int|
            image_patch(
                img,
                iwidth(img) as int,
                ky * stride - pad,
                kx * stride - pad,
                fh,
                fw,
                img.len(),
            ),
    )
}

/// The matrix rows contributed by the first `kyn` stripes of one image,
/// top to bottom.
pub open spec fn image_rows<T: Element>(
    img: Seq<Seq<Seq<T>>>,
    fh: nat,
    fw: nat,
    stride: nat,
    pad: nat,
    kyn: nat,
) -> Seq<Seq<T>>
    decreases kyn,
{
    if kyn == 0 {
        Seq::empty()
    } else {
        image_rows(img, fh, fw, stride, pad, (kyn - 1) as nat) + stripe_rows(
            img,
            fh,
            fw,
            stride,
            pad,
            kyn - 1,
            patch_count(iwidth(img), fw, stride, pad),
        )
    }
}

/// The matrix rows contributed by the first `n` images of a batch.
pub open spec fn batch_rows<T: Element>(
    imgs: Seq<Seq<Seq<Seq<T>>>>,
    fh: nat,
    fw: nat,
    stride: nat,
    pad: nat,
    n: nat,
) -> Seq<Seq<T>>
    decreases n,
{
    if n == 0 {
        Seq::empty()
    } else {
        batch_rows(imgs, fh, fw, stride, pad, (n - 1) as nat) + image_rows(
            imgs[n - 1],
            fh,
            fw,
            stride,
            pad,
            patch_count(iheight(imgs[n - 1]), fh, stride, pad),
        )
    }
}

/// A channel window always holds `fh · fw` pixels.
proof fn lemma_chan_patch_len<T: Element>(
    plane: Seq<Seq<T>>,
    w: int,
    y0: int,
    x0: int,
    fh: nat,
    fw: nat,
)
    ensures
        chan_patch(plane, w, y0, x0, fh, fw).len() == fh * fw,
    decreases fh,
{
    if fh == 0 {
    } else {
        lemma_chan_patch_len(plane, w, y0, x0, (fh - 1) as nat, fw);
        let fm = (fh - 1) as nat;
        assert(fh * fw == fm * fw + fw) by (nonlinear_arith)
            requires
                fm == fh - 1,
        ;
    }
}

/// An image window always holds `c · fh · fw` pixels.
proof fn lemma_image_patch_len<T: Element>(
    img: Seq<Seq<Seq<T>>>,
    w: int,
    y0: int,
    x0: int,
    fh: nat,
    fw: nat,
    c: nat,
)
    ensures
        image_patch(img, w, y0, x0, fh, fw, c).len() == c * (fh * fw),
    decreases c,
{
    if c == 0 {
    } else {
        let cm = (c - 1) as nat;
        lemma_image_patch_len(img, w, y0, x0, fh, fw, cm);
        lemma_chan_patch_len(img[c - 1], w, y0, x0, fh, fw);
        let m: nat = fh * fw;
        assert(image_patch(img, w, y0, x0, fh, fw, c).len() == cm * m + m);
        assert(c * m == cm * m + m) by (nonlinear_arith)
            requires
                cm == c - 1,
        ;
    }
}

/// A window index `k` below the window count keeps the window start
/// within the padded dimension: `k · stride ≤ dim + 2·pad − filter`.
proof fn lemma_grid_pos(k: int, stride: int, a: int)
    requires
        stride >= 1,
        0 <= a,
        0 <= k <= a / stride,
    ensures
        k * stride <= a,
{
    lemma_fundamental_div_mod(a, stride);
    lemma_mod_bound(a, stride);
    lemma_mul_inequality(k, a / stride, stride);
}

impl<T: Element> Matrix<T> {
    /// Lays the sliding windows of a batch of images out as matrix rows:
    /// one row per window position per image, each row the window's
    /// pixels ordered channel by channel and padded with zeros outside
    /// the image.  Expressing convolution this way turns it into a
    /// single matrix multiply.
    pub fn from_images(
        images: &Vec<Image<T>>,
        filter_h: usize,
        filter_w: usize,
        stride: usize,
        pad: usize,
    ) -> (r: Matrix<T>)
        requires
            stride >= 1,
            filter_h >= 1,
            filter_w >= 1,
            forall|k: int| 0 <= k < images@.len() ==> iwf((#[trigger] images@[k])@),
            forall|k: int|
                0 <= k < images@.len() ==> (#[trigger] images@[k])@.len() >= 1 && iheight(
                    images@[k]@,
                ) >= 1,
            forall|k: int|
                0 <= k < images@.len() ==> (#[trigger] images@[k])@.len() == images@[0]@.len(),
            forall|k: int|
                0 <= k < images@.len() ==> iheight((#[trigger] images@[k])@) + 2 * pad
                    <= usize::MAX && iwidth(images@[k]@) + 2 * pad <= usize::MAX,
        ensures
            r.wf(),
            r@ == batch_rows(
                images@.map_values(|im: Image<T>| im@),
                filter_h as nat,
                filter_w as nat,
                stride as nat,
                pad as nat,
                images@.len(),
            ),
    {
        let ghost imvs = images@.map_values(|im: Image<T>| im@);
        let ghost fh = filter_h as nat;
        let ghost fw = filter_w as nat;
        let ghost sd = stride as nat;
        let ghost pd = pad as nat;
        let n_img = images.len();
        let mut rows_acc: Vec<Vec<T>> = Vec::new();
        let mut im: usize = 0;
        while im < n_img
            invariant
                stride >= 1,
                filter_h >= 1,
                filter_w >= 1,
                forall|k: int| 0 <= k < images@.len() ==> iwf((#[trigger] images@[k])@),
                forall|k: int|
                    0 <= k < images@.len() ==> (#[trigger] images@[k])@.len() >= 1 && iheight(
                        images@[k]@,
                    ) >= 1,
                forall|k: int|
                    0 <= k < images@.len() ==> (#[trigger] images@[k])@.len() == images@[0]@.len(),
                forall|k: int|
                    0 <= k < images@.len() ==> iheight((#[trigger] images@[k])@) + 2 * pad
                        <= usize::MAX && iwidth(images@[k]@) + 2 * pad <= usize::MAX,
                imvs == images@.map_values(|q: Image<T>| q@),
                fh == filter_h as nat,
                fw == filter_w as nat,
                sd == stride as nat,
                pd == pad as nat,
                n_img == images@.len(),
                im <= n_img,
                rows_acc@.map_values(|v: Vec<T>| v@) == batch_rows(imvs, fh, fw, sd, pd, im as nat),
                forall|k: int|
                    0 <= k < rows_acc@.len() ==> (#[trigger] rows_acc@[k])@.len() == imvs[0].len()
                        * (fh * fw),
            decreases n_img - im,
        {
            let img = &images[im];
            let channels = img.channels();
            let h = img.height();
            let w = img.width();
            let ghost imv = img@;
            let county = if h + 2 * pad < filter_h {
                0
            } else {
                (h + 2 * pad - filter_h) / stride + 1
            };
            let countx = if w + 2 * pad < filter_w {
                0
            } else {
                (w + 2 * pad - filter_w) / stride + 1
            };
            proof {
                assert(county == patch_count(iheight(imv), fh, sd, pd));
                assert(countx == patch_count(iwidth(imv), fw, sd, pd));
            }
            let mut ky: usize = 0;
            while ky < county
                invariant
                    stride >= 1,
                    filter_h >= 1,
                    filter_w >= 1,
                    iwf(imv),
                    imv.len() == channels,
                    channels >= 1,
                    h == iheight(imv),
                    h >= 1,
                    w == iwidth(imv),
                    h + 2 * pad <= usize::MAX,
                    w + 2 * pad <= usize::MAX,
                    fh == filter_h as nat,
                    fw == filter_w as nat,
                    sd == stride as nat,
                    pd == pad as nat,
                    county == patch_count(iheight(imv), fh, sd, pd),
                    countx == patch_count(iwidth(imv), fw, sd, pd),
                    ky <= county,
                    rows_acc@.map_values(|v: Vec<T>| v@) == batch_rows(imvs, fh, fw, sd, pd, im as nat)
                        + image_rows(imv, fh, fw, sd, pd, ky as nat),
                    forall|k: int|
                        0 <= k < rows_acc@.len() ==> (#[trigger] rows_acc@[k])@.len() == imvs[0].len()
                            * (fh * fw),
                    imvs[0].len() == channels,
                    imvs == images@.map_values(|q: Image<T>| q@),
                    im < images@.len(),
                    imv == imvs[im as int],
                    imv == img@,
                decreases county - ky,
            {
                proof {
                    lemma_grid_pos(ky as int, stride as int, (h + 2 * pad - filter_h) as int);
                }
                let y_base = ky * stride;
                let mut kx: usize = 0;
                while kx < countx
                    invariant
                        stride >= 1,
                        filter_h >= 1,
                        filter_w >= 1,
                        iwf(imv),
                        imv.len() == channels,
                        channels >= 1,
                        h == iheight(imv),
                        h >= 1,
                        w == iwidth(imv),
                        h + 2 * pad <= usize::MAX,
                        w + 2 * pad <= usize::MAX,
                        fh == filter_h as nat,
                        fw == filter_w as nat,
                        sd == stride as nat,
                        pd == pad as nat,
                        county == patch_count(iheight(imv), fh, sd, pd),
                        countx == patch_count(iwidth(imv), fw, sd, pd),
                        ky < county,
                        y_base == ky * stride,
                        y_base + filter_h <= h + 2 * pad,
                        kx <= countx,
                        rows_acc@.map_values(|v: Vec<T>| v@) == batch_rows(
                            imvs,
                            fh,
                            fw,
                            sd,
                            pd,
                            im as nat,
                        ) + image_rows(imv, fh, fw, sd, pd, ky as nat) + stripe_rows(
                            imv,
                            fh,
                            fw,
                            sd,
                            pd,
                            ky as int,
                            kx as nat,
                        ),
                        forall|k: int|
                            0 <= k < rows_acc@.len() ==> (#[trigger] rows_acc@[k])@.len() == imvs[0].len() * (fh * fw),
                        imvs[0].len() == channels,
                        imvs == images@.map_values(|q: Image<T>| q@),
                        im < images@.len(),
                        imv == imvs[im as int],
                        imv == img@,
                    decreases countx - kx,
                {
                    proof {
                        lemma_grid_pos(kx as int, stride as int, (w + 2 * pad - filter_w) as int);
                    }
                    let x_base = kx * stride;
                    let ghost y0 = y_base - pad as int;
                    let ghost x0 = x_base - pad as int;
                    let mut row: Vec<T> = Vec::new();
                    let mut c: usize = 0;
                    while c < channels
                        invariant
                            iwf(imv),
                            imv.len() == channels,
                            h == iheight(imv),
                            w == iwidth(imv),
                            fh == filter_h as nat,
                            fw == filter_w as nat,
                            y_base + filter_h <= h + 2 * pad,
                            x_base + filter_w <= w + 2 * pad,
                            h + 2 * pad <= usize::MAX,
                            w + 2 * pad <= usize::MAX,
                            y0 == y_base - pad as int,
                            x0 == x_base - pad as int,
                            c <= channels,
                            row@ == image_patch(imv, w as int, y0, x0, fh, fw, c as nat),
                            imv == img@,
                        decreases channels - c,
                    {
                        let mut i: usize = 0;
                        while i < filter_h
                            invariant
                                iwf(imv),
                                imv.len() == channels,
                                c < channels,
                                h == iheight(imv),
                                w == iwidth(imv),
                                fh == filter_h as nat,
                                fw == filter_w as nat,
                                y_base + filter_h <= h + 2 * pad,
                                x_base + filter_w <= w + 2 * pad,
                                h + 2 * pad <= usize::MAX,
                                w + 2 * pad <= usize::MAX,
                                y0 == y_base - pad as int,
                                x0 == x_base - pad as int,
                                i <= filter_h,
                                row@ == image_patch(imv, w as int, y0, x0, fh, fw, c as nat)
                                    + chan_patch(imv[c as int], w as int, y0, x0, i as nat, fw),
                                imv == img@,
                            decreases filter_h - i,
                        {
                            let ghost row_at_i = row@;
                            let mut j: usize = 0;
                            while j < filter_w
                                invariant
                                    iwf(imv),
                                    imv.len() == channels,
                                    c < channels,
                                    i < filter_h,
                                    h == iheight(imv),
                                    w == iwidth(imv),
                                    fh == filter_h as nat,
                                    fw == filter_w as nat,
                                    y_base + filter_h <= h + 2 * pad,
                                    x_base + filter_w <= w + 2 * pad,
                                    h + 2 * pad <= usize::MAX,
                                    w + 2 * pad <= usize::MAX,
                                    y0 == y_base - pad as int,
                                    x0 == x_base - pad as int,
                                    j <= filter_w,
                                    row_at_i == image_patch(imv, w as int, y0, x0, fh, fw, c as nat)
                                        + chan_patch(imv[c as int], w as int, y0, x0, i as nat, fw),
                                    row@ == row_at_i + row_patch(
                                        imv[c as int],
                                        w as int,
                                        y0 + i,
                                        x0,
                                        j as nat,
                                    ),
                                    imv == img@,
                                decreases filter_w - j,
                            {
                                let ys = y_base + i;
                                let xs = x_base + j;
                                let v = if ys >= pad && ys - pad < h && xs >= pad && xs - pad < w {
                                    proof {
                                        assert(img.0@[c as int]@.map_values(|q: Vec<T>| q@)
                                            == img@[c as int]);
                                        assert(img.0@[c as int]@[(ys - pad) as int]@
                                            == img@[c as int][(ys - pad) as int]);
                                        assert(img@[c as int].len() == h);
                                        assert(img@[c as int][(ys - pad) as int].len() == w);
                                    }
                                    img.0[c][ys - pad][xs - pad]
                                } else {
                                    T::zero()
                                };
                                proof {
                                    let rp_next = row_patch(
                                        imv[c as int],
                                        w as int,
                                        y0 + i,
                                        x0,
                                        (j + 1) as nat,
                                    );
                                    assert(rp_next[j as int] == v);
                                    assert(row@.push(v) =~= row_at_i + rp_next);
                                }
                                row.push(v);
                                j = j + 1;
                            }
                            proof {
                                assert(row@ =~= image_patch(imv, w as int, y0, x0, fh, fw, c as nat)
                                    + chan_patch(
                                    imv[c as int],
                                    w as int,
                                    y0,
                                    x0,
                                    (i + 1) as nat,
                                    fw,
                                ));
                            }
                            i = i + 1;
                        }
                        proof {
                            assert(row@ =~= image_patch(
                                imv,
                                w as int,
                                y0,
                                x0,
                                fh,
                                fw,
                                (c + 1) as nat,
                            ));
                        }
                        c = c + 1;
                    }
                    proof {
                        lemma_image_patch_len(imv, w as int, y0, x0, fh, fw, channels as nat);
                        let stripe_next = stripe_rows(imv, fh, fw, sd, pd, ky as int, (kx + 1) as nat);
                        assert(stripe_next[kx as int] == row@);
                        assert(rows_acc@.push(row).map_values(|v: Vec<T>| v@) =~= rows_acc@
                            .map_values(|v: Vec<T>| v@).push(row@));
                        assert(rows_acc@.push(row).map_values(|v: Vec<T>| v@) =~= batch_rows(
                            imvs,
                            fh,
                            fw,
                            sd,
                            pd,
                            im as nat,
                        ) + image_rows(imv, fh, fw, sd, pd, ky as nat) + stripe_next);
                    }
                    rows_acc.push(row);
                    kx = kx + 1;
                }
                proof {
                    assert(rows_acc@.map_values(|v: Vec<T>| v@) =~= batch_rows(
                        imvs,
                        fh,
                        fw,
                        sd,
                        pd,
                        im as nat,
                    ) + image_rows(imv, fh, fw, sd, pd, (ky + 1) as nat));
                }
                ky = ky + 1;
            }
            proof {
                assert(rows_acc@.map_values(|v: Vec<T>| v@) =~= batch_rows(
                    imvs,
                    fh,
                    fw,
                    sd,
                    pd,
                    (im + 1) as nat,
                ));
            }
            im = im + 1;
        }
        proof {
            assert(forall|y: int|
                0 <= y < rows_acc@.len() ==> (#[trigger] rows_acc@[y])@.len() == rows_acc@[0]@.len());
        }
        let r = Matrix::from_rect(rows_acc);
        r
    }
}

} // verus!
