//! The pictures that the engine can look for, kept by name.

use crate::error::AppError;
use crate::image_recognition::{find_click_point, is_find_result, located};
use crate::picture::{Bitmap, GrayscaleBuffer, MAX_PIXELS};
use crate::profiles::{profile_file_name, profile_suffix, FileLocation};
use base64::DecodeError;
use base64::Engine;
use image::error::ImageError;
use vstd::prelude::*;

verus! {

/// `base64::DecodeError`, the reason why a text is no base64.
#[verifier::external_type_specification]
#[verifier::external_body]
pub struct ExDecodeError(DecodeError);

/// `image::error::ImageError`, the reason why bytes could not be decoded.
#[verifier::external_type_specification]
#[verifier::external_body]
pub struct ExImageError(ImageError);

/// The bytes that a text stands for in standard base64 with padding, if it
/// is such a text.
pub uninterp spec fn base64_decoded(text: Seq<char>) -> Option<Seq<u8>>;

/// The width, the height and the brightness of each pixel, row by row, of
/// the picture that is stored in the given bytes, if they hold a picture.
pub uninterp spec fn stored_picture(bytes: Seq<u8>) -> Option<(u32, u32, Seq<u8>)>;

/// `Engine::decode` of `base64::engine::general_purpose::STANDARD`: the
/// bytes that the text stands for, or the reason why it stands for none.
#[verifier::external_body]
fn decode_base64(text: &str) -> (r: Result<Vec<u8>, DecodeError>)
    ensures
        r.is_ok() <==> base64_decoded(text@).is_some(),
        r.is_ok() ==> base64_decoded(text@) == Some(r.unwrap()@),
{
    base64::engine::general_purpose::STANDARD.decode(text)
}

/// `image::load_from_memory`, followed by `DynamicImage::to_luma8`: the
/// picture that the bytes hold, as width, height and brightness of each
/// pixel, or the reason why they hold none.
#[verifier::external_body]
fn decode_picture(bytes: &Vec<u8>) -> (r: Result<(u32, u32, Vec<u8>), ImageError>)
    ensures
        r.is_ok() <==> stored_picture(bytes@).is_some(),
        r.is_ok() ==> stored_picture(bytes@) == Some(
            (r.unwrap().0, r.unwrap().1, r.unwrap().2@),
        ),
{
    let gray = image::load_from_memory(bytes.as_slice())?.to_luma8();
    Ok((gray.width(), gray.height(), gray.into_raw()))
}

/// What decoding makes of a stored picture: the picture, or the failure of
/// the step that did not succeed.
pub open spec fn decoded_target(image_data: Seq<char>) -> Result<Bitmap, AppError> {
    match base64_decoded(image_data) {
        None => Err(AppError::Base64Error),
        Some(bytes) => match stored_picture(bytes) {
            None => Err(AppError::ImageError),
            Some((width, height, pixels)) => {
                if pixels.len() == width * height && width * height <= MAX_PIXELS {
                    Ok(Bitmap { width: width as nat, height: height as nat, pixels })
                } else {
                    Err(AppError::ImageError)
                }
            },
        },
    }
}

/// Makes a picture of the bytes that were decoded from its stored form.
pub fn picture_from_decoded(decoded: Result<(u32, u32, Vec<u8>), AppError>) -> (r: Result<
    GrayscaleBuffer,
    AppError,
>)
    ensures
        match decoded {
            Err(e) => r == Err::<GrayscaleBuffer, AppError>(e),
            Ok((width, height, pixels)) => {
                if pixels@.len() == width * height && width * height <= MAX_PIXELS {
                    r.is_ok() && r.unwrap()@ == (Bitmap {
                        width: width as nat,
                        height: height as nat,
                        pixels: pixels@,
                    })
                } else {
                    r == Err::<GrayscaleBuffer, AppError>(AppError::ImageError)
                }
            },
        },
{
    match decoded {
        Err(e) => Err(e),
        Ok((width, height, pixels)) => {
            match GrayscaleBuffer::new(width, height, pixels) {
                Some(picture) => Ok(picture),
                None => Err(AppError::ImageError),
            }
        },
    }
}

/// Decodes a stored picture: base64 text that holds an encoded image.
pub fn decode_target(image_data: &str) -> (r: Result<GrayscaleBuffer, AppError>)
    ensures
        match decoded_target(image_data@) {
            Ok(picture) => r.is_ok() && r.unwrap()@ == picture,
            Err(e) => r == Err::<GrayscaleBuffer, AppError>(e),
        },
{
    let bytes = match decode_base64(image_data) {
        Ok(bytes) => bytes,
        Err(_) => {
            return Err(AppError::Base64Error);
        },
    };
    let decoded = match decode_picture(&bytes) {
        Ok(parts) => Ok(parts),
        Err(_) => Err(AppError::ImageError),
    };
    picture_from_decoded(decoded)
}

/// Decodes a picture from base64 text. Empty text, text that is no base64
/// and bytes that hold no picture are all refused as unreadable.
pub fn base64_to_image(base64_data: &str) -> (r: Result<GrayscaleBuffer, AppError>)
    ensures
        r.is_ok() <==> base64_data@.len() > 0 && decoded_target(base64_data@).is_ok(),
        r.is_ok() ==> r.unwrap()@ == decoded_target(base64_data@).unwrap(),
        r.is_err() ==> r == Err::<GrayscaleBuffer, AppError>(AppError::ParseError),
{
    if base64_data.unicode_len() == 0 {
        return Err(AppError::ParseError);
    }
    match decode_target(base64_data) {
        Ok(picture) => Ok(picture),
        Err(_) => Err(AppError::ParseError),
    }
}

/// A picture to look for on the screen.
#[derive(Debug)]
pub struct TargetImage {
    /// Name by which the target is found.
    pub id: String,
    /// Name shown to the user.
    pub name: String,
    /// The picture: base64 text that holds an encoded image.
    pub image_data: String,
    /// The score from which a placement counts as a match, in millionths.
    pub threshold: u32,
    /// Where to click, counted from the top-left corner of the match; the
    /// centre of the match where none is given.
    pub click_offset: Option<(i32, i32)>,
}

/// The position of the first target named `id`, if there is one.
pub open spec fn first_named(targets: Seq<TargetImage>, id: Seq<char>) -> Option<int> {
    if exists|i: int| 0 <= i < targets.len() && (#[trigger] targets[i]).id@ == id {
        Some(
            choose|i: int|
                0 <= i < targets.len() && (#[trigger] targets[i]).id@ == id && forall|k: int|
                    0 <= k < i ==> (#[trigger] targets[k]).id@ != id,
        )
    } else {
        None
    }
}

/// The targets that are not named `id`, in their order.
pub open spec fn without_named(targets: Seq<TargetImage>, id: Seq<char>) -> Seq<TargetImage> {
    targets.filter(|t: TargetImage| t.id@ != id)
}

/// Filtering a sequence with one more entry at its end filters the
/// sequence and keeps or drops the entry.
proof fn lemma_filter_push<A>(s: Seq<A>, pred: spec_fn(A) -> bool, x: A)
    ensures
        s.push(x).filter(pred) == if pred(x) {
            s.filter(pred).push(x)
        } else {
            s.filter(pred)
        },
{
    reveal(Seq::filter);
    assert(s.push(x).drop_last() =~= s);
}

/// The targets that the engine knows, and the directory they are stored in.
pub struct ImageLibrary {
    targets_dir: String,
    targets: Vec<TargetImage>,
}

impl ImageLibrary {
    /// The targets, in the order in which they were added.
    pub closed spec fn targets(&self) -> Seq<TargetImage> {
        self.targets@
    }

    /// The directory in which targets are stored.
    pub closed spec fn dir(&self) -> Seq<char> {
        self.targets_dir@
    }

    /// A library without targets for the given directory. The directory
    /// itself is the caller's to create and to read.
    pub fn new(targets_dir: &str) -> (r: Self)
        ensures
            r.targets() == Seq::<TargetImage>::empty(),
            r.dir() == targets_dir@,
    {
        ImageLibrary { targets_dir: targets_dir.to_owned(), targets: Vec::new() }
    }

    /// All targets.
    pub fn get_targets(&self) -> (r: &[TargetImage])
        ensures
            r@ == self.targets(),
    {
        self.targets.as_slice()
    }

    /// Where the file lies that holds the target named `id`: in the targets
    /// directory, under `id` with the extension of a profile file.
    pub fn target_path(&self, id: &str) -> (path: FileLocation)
        ensures
            path.dir@ == self.dir(),
            path.file@ == id@ + profile_suffix(),
    {
        FileLocation { dir: self.targets_dir.clone(), file: profile_file_name(id) }
    }

    /// Forgets all targets.
    pub fn clear_targets(&mut self)
        ensures
            final(self).targets() == Seq::<TargetImage>::empty(),
            final(self).dir() == old(self).dir(),
    {
        self.targets.clear();
    }

    /// Adds a target after the ones that are there.
    pub fn add_target(&mut self, target: TargetImage)
        ensures
            final(self).targets() == old(self).targets().push(target),
            final(self).dir() == old(self).dir(),
    {
        self.targets.push(target);
    }

    /// The position of the first target named `target_id`.
    pub fn find_target(&self, target_id: &str) -> (r: Option<usize>)
        ensures
            match r {
                Some(i) => first_named(self.targets(), target_id@) == Some(i as int) && i
                    < self.targets().len() && self.targets()[i as int].id@ == target_id@,
                None => first_named(self.targets(), target_id@).is_none(),
            },
    {
        let wanted = target_id.to_owned();
        let mut i: usize = 0;
        while i < self.targets.len()
            invariant
                i <= self.targets@.len(),
                wanted@ == target_id@,
                forall|k: int| 0 <= k < i ==> (#[trigger] self.targets@[k]).id@ != target_id@,
            decreases self.targets.len() - i,
        {
            if self.targets[i].id == wanted {
                proof {
                    let found = first_named(self.targets@, target_id@).unwrap();
                    assert(found == i) by {
                        if found < i {
                            assert(self.targets@[found].id@ != target_id@);
                        }
                    }
                }
                return Some(i);
            }
            i = i + 1;
        }
        None
    }

    /// Forgets every target named `target_id` and says whether there was
    /// one.
    pub fn remove_target(&mut self, target_id: &str) -> (removed: bool)
        ensures
            final(self).targets() == without_named(old(self).targets(), target_id@),
            final(self).dir() == old(self).dir(),
            removed == first_named(old(self).targets(), target_id@).is_some(),
    {
        let wanted = target_id.to_owned();
        let ghost before = self.targets@;
        let ghost pred = |t: TargetImage| t.id@ != target_id@;
        let ghost mut done: int = 0;
        let mut removed = false;
        let mut i: usize = 0;
        proof {
            reveal(Seq::filter);
            assert(before.subrange(0, 0) =~= Seq::<TargetImage>::empty());
            assert(before.subrange(0, before.len() as int) =~= before);
        }
        while i < self.targets.len()
            invariant
                wanted@ == target_id@,
                self.targets_dir == old(self).targets_dir,
                pred == (|t: TargetImage| t.id@ != target_id@),
                0 <= done <= before.len(),
                i == before.subrange(0, done).filter(pred).len(),
                self.targets@ =~= before.subrange(0, done).filter(pred) + before.subrange(
                    done,
                    before.len() as int,
                ),
                removed == exists|k: int| 0 <= k < done && (#[trigger] before[k]).id@ == target_id@,
            decreases before.len() - done,
        {
            proof {
                assert(self.targets@[i as int] == before[done]);
                assert(before.subrange(0, done + 1) =~= before.subrange(0, done).push(before[done]));
                lemma_filter_push(before.subrange(0, done), pred, before[done]);
            }
            if self.targets[i].id == wanted {
                self.targets.remove(i);
                removed = true;
            } else {
                i = i + 1;
            }
            proof {
                done = done + 1;
            }
        }
        proof {
            assert(before.subrange(done, before.len() as int).len() == 0);
            assert(before.subrange(0, done) =~= before);
            assert(self.targets@ =~= before.filter(pred));
        }
        removed
    }

    /// Looks for the target named `target_id` on the screen and reports the
    /// point to click: the match moved by the target's click offset, or the
    /// centre of the match where the target has none.
    pub fn find_on_screen(&self, target_id: &str, screen: &GrayscaleBuffer) -> (r: Result<
        Option<(i32, i32)>,
        AppError,
    >)
        ensures
            is_search_result(self.targets(), target_id@, screen@, r),
    {
        let index = match self.find_target(target_id) {
            Some(i) => i,
            None => {
                return Err(AppError::ParseError);
            },
        };
        let target = &self.targets[index];
        let template = match decode_target(target.image_data.as_str()) {
            Ok(picture) => picture,
            Err(e) => {
                return Err(e);
            },
        };
        find_click_point(screen, &template, target.threshold, target.click_offset)
    }
}

/// `r` is a result of looking for the target named `id` on the screen `s`:
/// a failure when no target has that name or when the picture of the first
/// such target cannot be decoded, and otherwise a result of searching the
/// screen for that picture, turned into the point to click.
pub open spec fn is_search_result(
    targets: Seq<TargetImage>,
    id: Seq<char>,
    s: Bitmap,
    r: Result<Option<(i32, i32)>, AppError>,
) -> bool {
    match first_named(targets, id) {
        None => r == Err::<Option<(i32, i32)>, AppError>(AppError::ParseError),
        Some(i) => match decoded_target(targets[i].image_data@) {
            Err(e) => r == Err::<Option<(i32, i32)>, AppError>(e),
            Ok(t) => exists|found: Result<Option<(i32, i32)>, AppError>|
                is_find_result(s, t, targets[i].threshold as int, found) && r == located(
                    found,
                    t.width as u32,
                    t.height as u32,
                    targets[i].click_offset,
                ),
        },
    }
}

} // verus!
