use vstd::prelude::*;

verus! {

/// Pixel layout of a texture.
#[derive(Clone, Copy, Debug, PartialEq, Eq, Structural)]
pub enum PixelFormat {
    R8G8B8A8Unorm,
    B8G8R8A8Unorm,
}

/// What a storage texture is created with: its size, its pixel layout, and its
/// usage (sampled by shaders, written by transfers).
#[derive(Clone, Copy, Debug, PartialEq, Eq, Structural)]
pub struct StorageTexture {
    pub width: u32,
    pub height: u32,
    pub format: PixelFormat,
    pub sampled: bool,
    pub transfer_destination: bool,
}

/// The storage texture for a viewport: the viewport's size, sampled and a
/// transfer destination.
pub fn create_storage_texture(viewport: (u32, u32), format: PixelFormat) -> (r: StorageTexture)
    ensures
        r == (StorageTexture {
            width: viewport.0,
            height: viewport.1,
            format,
            sampled: true,
            transfer_destination: true,
        }),
{
    StorageTexture {
        width: viewport.0,
        height: viewport.1,
        format,
        sampled: true,
        transfer_destination: true,
    }
}

/// A frame drawn by the CPU: `rgba_buffer` holds four bytes per pixel, row by
/// row; `upload_buffer` is what the GPU copies into the texture.
pub struct CpuImageBuffer {
    pub width: usize,
    pub height: usize,
    pub rgba_buffer: Vec<u8>,
    upload_buffer: Vec<u8>,
    texture: StorageTexture,
}

impl CpuImageBuffer {
    /// Width in pixels.
    pub closed spec fn spec_width(&self) -> nat {
        self.width as nat
    }

    /// Height in pixels.
    pub closed spec fn spec_height(&self) -> nat {
        self.height as nat
    }

    /// The frame's bytes, four per pixel.
    pub closed spec fn pixels(&self) -> Seq<u8> {
        self.rgba_buffer@
    }

    /// Byte length of the frame buffers.
    pub open spec fn byte_len(&self) -> nat {
        self.spec_width() * self.spec_height() * 4
    }

    /// The frame's buffers have one RGBA quadruple per pixel.
    pub closed spec fn wf(&self) -> bool {
        &&& self.rgba_buffer@.len() == self.byte_len()
        &&& self.upload_buffer@.len() == self.byte_len()
        &&& self.texture.width as nat == self.width as nat
        &&& self.texture.height as nat == self.height as nat
    }

    /// Bytes that the GPU will copy into the texture.
    pub closed spec fn uploaded(&self) -> Seq<u8> {
        self.upload_buffer@
    }

    /// A black, fully transparent frame of `width` by `height` pixels.
    pub fn new(width: u32, height: u32) -> (r: CpuImageBuffer)
        requires
            width as int * height as int * 4 <= usize::MAX,
        ensures
            r.wf(),
            r.spec_width() == width,
            r.spec_height() == height,
            r.pixels() == Seq::new(r.byte_len(), |i: int| 0u8),
            r.uploaded() == Seq::new(r.byte_len(), |i: int| 0u8),
            r.texture() == (StorageTexture {
                width,
                height,
                format: PixelFormat::R8G8B8A8Unorm,
                sampled: true,
                transfer_destination: true,
            }),
    {
        let len: usize = width as usize * height as usize * 4;
        let mut rgba_buffer: Vec<u8> = Vec::new();
        let mut upload_buffer: Vec<u8> = Vec::new();
        let mut i: usize = 0;
        while i < len
            invariant
                i <= len,
                rgba_buffer@ == Seq::new(i as nat, |k: int| 0u8),
                upload_buffer@ == Seq::new(i as nat, |k: int| 0u8),
            decreases len - i,
        {
            rgba_buffer.push(0);
            upload_buffer.push(0);
            i = i + 1;
            assert(rgba_buffer@ =~= Seq::new(i as nat, |k: int| 0u8));
            assert(upload_buffer@ =~= Seq::new(i as nat, |k: int| 0u8));
        }
        let texture = create_storage_texture((width, height), PixelFormat::R8G8B8A8Unorm);
        CpuImageBuffer {
            width: width as usize,
            height: height as usize,
            rgba_buffer,
            upload_buffer,
            texture,
        }
    }

    /// The texture that the frame is shown through.
    pub closed spec fn texture(&self) -> StorageTexture {
        self.texture
    }

    /// Copies the frame into the upload buffer.
    pub fn load_buffer(&mut self)
        requires
            old(self).wf(),
        ensures
            final(self).wf(),
            final(self).uploaded() == old(self).pixels(),
            final(self).pixels() == old(self).pixels(),
            final(self).spec_width() == old(self).spec_width(),
            final(self).spec_height() == old(self).spec_height(),
    {
        let n = self.rgba_buffer.len();
        let mut i: usize = 0;
        while i < n
            invariant
                self.wf(),
                n == self.rgba_buffer@.len(),
                self.rgba_buffer@ == old(self).rgba_buffer@,
                self.width == old(self).width,
                self.height == old(self).height,
                i <= n,
                forall|k: int| 0 <= k < i ==> self.upload_buffer@[k] == self.rgba_buffer@[k],
            decreases n - i,
        {
            let b = self.rgba_buffer[i];
            self.upload_buffer.set(i, b);
            i = i + 1;
        }
        assert(self.upload_buffer@ =~= self.rgba_buffer@);
    }

    /// Sets every byte of the frame to zero.
    pub fn clear(&mut self)
        requires
            old(self).wf(),
        ensures
            final(self).wf(),
            final(self).pixels() == Seq::new(old(self).pixels().len(), |i: int| 0u8),
            final(self).uploaded() == old(self).uploaded(),
            final(self).spec_width() == old(self).spec_width(),
            final(self).spec_height() == old(self).spec_height(),
    {
        let n = self.rgba_buffer.len();
        let mut i: usize = 0;
        while i < n
            invariant
                self.wf(),
                n == self.rgba_buffer@.len(),
                self.upload_buffer == old(self).upload_buffer,
                self.width == old(self).width,
                self.height == old(self).height,
                i <= n,
                forall|k: int| 0 <= k < i ==> self.rgba_buffer@[k] == 0u8,
            decreases n - i,
        {
            self.rgba_buffer.set(i, 0);
            i = i + 1;
        }
        assert(self.rgba_buffer@ =~= Seq::new(n as nat, |i: int| 0u8));
    }

    /// Bytes that the GPU will copy into the texture.
    pub fn upload_bytes(&self) -> (r: &Vec<u8>)
        ensures
            r@ == self.uploaded(),
    {
        &self.upload_buffer
    }
}

} // verus!
