use vnlayer::cpu::{create_storage_texture, CpuImageBuffer, PixelFormat, StorageTexture};

#[test]
fn storage_texture_for_viewport() {
    let t = create_storage_texture((640, 480), PixelFormat::B8G8R8A8Unorm);
    assert_eq!(
        t,
        StorageTexture {
            width: 640,
            height: 480,
            format: PixelFormat::B8G8R8A8Unorm,
            sampled: true,
            transfer_destination: true,
        }
    );
}

#[test]
fn frame_starts_black() {
    let f = CpuImageBuffer::new(3, 2);
    assert_eq!(f.width, 3);
    assert_eq!(f.height, 2);
    assert_eq!(f.rgba_buffer, vec![0u8; 24]);
    assert_eq!(f.upload_bytes(), &vec![0u8; 24]);
}

#[test]
fn load_buffer_copies_frame() {
    let mut f = CpuImageBuffer::new(2, 1);
    for (i, b) in f.rgba_buffer.iter_mut().enumerate() {
        *b = i as u8 + 1;
    }
    f.load_buffer();
    assert_eq!(f.upload_bytes(), &vec![1, 2, 3, 4, 5, 6, 7, 8]);
    f.clear();
    assert_eq!(f.rgba_buffer, vec![0u8; 8]);
    assert_eq!(f.upload_bytes(), &vec![1, 2, 3, 4, 5, 6, 7, 8]);
}
