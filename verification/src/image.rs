//! The picture of a page, as stored bytes with their size in pixels.

use vstd::prelude::*;

verus! {

/// Model of an [`Image`].
pub ghost struct ImageModel {
    pub data: Seq<u8>,
    pub width: u32,
    pub height: u32,
}

/// A picture: its stored bytes and its size in pixels.
#[derive(Debug)]
pub struct Image {
    data: Vec<u8>,
    width: u32,
    height: u32,
}

impl View for Image {
    type V = ImageModel;

    closed spec fn view(&self) -> ImageModel {
        ImageModel { data: self.data@, width: self.width, height: self.height }
    }
}

impl Image {
    /// A picture without bytes, of size zero.
    pub fn new() -> (image: Image)
        ensures
            image@ == (ImageModel { data: Seq::empty(), width: 0, height: 0 }),
    {
        Image { data: Vec::new(), width: 0, height: 0 }
    }

    /// The picture of these bytes, whose size was found to be `width` by
    /// `height`.
    pub fn with_size(data: Vec<u8>, width: u32, height: u32) -> (image: Image)
        ensures
            image@ == (ImageModel { data: data@, width, height }),
    {
        Image { data, width, height }
    }

    /// The stored bytes.
    pub fn data(&self) -> (data: &[u8])
        ensures
            data@ == self@.data,
    {
        self.data.as_slice()
    }

    /// Width and height in pixels.
    pub fn size(&self) -> (size: (u32, u32))
        ensures
            size == (self@.width, self@.height),
    {
        (self.width, self.height)
    }

    /// The stored bytes, to be changed in place.
    pub fn inner_mut(&mut self) -> (data: &mut Vec<u8>)
        ensures
            data@ == old(self)@.data,
            final(self)@ == (ImageModel { data: final(data)@, ..old(self)@ }),
    {
        &mut self.data
    }

    /// The stored bytes.
    pub fn inner(&self) -> (data: &Vec<u8>)
        ensures
            data@ == self@.data,
    {
        &self.data
    }
}

impl Default for Image {
    fn default() -> (image: Image)
        ensures
            image@ == (ImageModel { data: Seq::empty(), width: 0, height: 0 }),
    {
        Image::new()
    }
}

} // verus!
