use bodypix::bodypix::{BodyPix, ModelType};

#[test]
fn models_lists_eight_variants_in_four_parallel_lists() {
    let (names, files, strides, families) = BodyPix::models();
    assert_eq!(names.len(), 8);
    assert_eq!(files.len(), 8);
    assert_eq!(strides.len(), 8);
    assert_eq!(families.len(), 8);
}

#[test]
fn models_names_every_variant() {
    let (names, _, _, _) = BodyPix::models();
    assert_eq!(
        names,
        vec![
            "MobileNet 0.50 stride 8",
            "MobileNet 0.50 stride 16",
            "MobileNet 0.75 stride 8",
            "MobileNet 0.75 stride 16",
            "MobileNet 1.00 stride 8",
            "MobileNet 1.00 stride 16",
            "ResNet 0.50 stride 16",
            "ResNet 0.50 stride 32",
        ]
    );
}

#[test]
fn models_gives_the_weight_file_of_every_variant() {
    let (_, files, _, _) = BodyPix::models();
    assert_eq!(
        files,
        vec![
            "bodypix_mobilenet_float_050-stride8.pb",
            "bodypix_mobilenet_float_050-stride8.pb",
            "bodypix_mobilenet_float_075-stride8.pb",
            "bodypix_mobilenet_float_075-stride8.pb",
            "bodypix_mobilenet_float_100-stride8.pb",
            "bodypix_mobilenet_float_100-stride8.pb",
            "bodypix_resnet50_float-stride16.pb",
            "bodypix_resnet50_float-stride32.pb",
        ]
    );
}

#[test]
fn models_gives_stride_and_family_of_every_variant() {
    let (_, _, strides, families) = BodyPix::models();
    assert_eq!(strides, vec![8, 16, 8, 16, 8, 16, 16, 32]);
    assert_eq!(
        families,
        vec![
            ModelType::MobileNet,
            ModelType::MobileNet,
            ModelType::MobileNet,
            ModelType::MobileNet,
            ModelType::MobileNet,
            ModelType::MobileNet,
            ModelType::ResNet,
            ModelType::ResNet,
        ]
    );
}

#[test]
fn from_model_keeps_stride_and_family() {
    let (_, _, strides, families) = BodyPix::models();
    let model = BodyPix::from_model(strides[7], families[7]);
    assert_eq!(model.stride(), 32);
    assert_eq!(model.model_type(), ModelType::ResNet);
}
