use dualslint::pixmap::upload_pixmap;

#[test]
fn bytes_become_pixels() {
    let image = upload_pixmap(&vec![1, 2, 3, 4, 5, 6, 7, 8, 9], 2, 1);
    assert_eq!((image.width(), image.height(), image.stride()), (2, 1, 2));
    let pixels = image.buf();
    assert_eq!(pixels.len(), 2);
    assert_eq!((pixels[0].r, pixels[0].g, pixels[0].b, pixels[0].a), (1, 2, 3, 4));
    assert_eq!((pixels[1].r, pixels[1].g, pixels[1].b, pixels[1].a), (5, 6, 7, 8));
}

#[test]
fn an_image_may_have_no_rows() {
    let image = upload_pixmap(&vec![], 3, 0);
    assert_eq!((image.width(), image.height()), (3, 0));
    assert!(image.buf().is_empty());
}
