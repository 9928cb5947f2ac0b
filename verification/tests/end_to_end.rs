use atlas_extract::archive::Multiplexer;
use atlas_extract::driver::copy_plan;
use atlas_extract::driver::fetch_atlas_slices;
use atlas_extract::driver::layout;
use atlas_extract::driver::output_path;
use atlas_extract::driver::RunConfig;
use atlas_extract::errors::Error;
use atlas_extract::mapping::AtlasMapping;
use atlas_extract::pos::AtlasPos;

fn make_zip(entries: &[(&str, &[u8])]) -> Vec<u8> {
    let mut w = zip::ZipWriter::new(std::io::Cursor::new(Vec::new()));
    let opts = zip::write::SimpleFileOptions::default();
    for (name, data) in entries {
        w.start_file(*name, opts).unwrap();
        std::io::Write::write_all(&mut w, data).unwrap();
    }
    w.finish().unwrap().into_inner()
}

fn strings(v: &toml::Value) -> Vec<String> {
    v.as_array()
        .unwrap()
        .iter()
        .map(|s| s.as_str().unwrap().to_string())
        .collect()
}

#[test]
fn minimal_mapping_file_copies_a_model_byte_identically() {
    let text = "\
modid = \"testmod\"\n\
banner = \"banner.png\"\n\
models = [\"foo.json\"]\n\
gui = []\n\
blocks_copy = []\n\
imgs = []\n\
bin = \"out.bin\"\n\
\n\
[folders]\n\
\"a.zip\" = [\"models\"]\n\
\n\
[blocks]\n\
\n\
[items]\n\
";
    let tbl: toml::Table = text.parse().unwrap();
    let folders: Vec<(String, Vec<String>)> = tbl["folders"]
        .as_table()
        .unwrap()
        .iter()
        .map(|(k, v)| (k.clone(), strings(v)))
        .collect();
    let cfg = RunConfig {
        modid: tbl["modid"].as_str().unwrap().to_string(),
        banner: tbl["banner"].as_str().unwrap().to_string(),
        models: strings(&tbl["models"]),
        gui: strings(&tbl["gui"]),
        blocks_copy: strings(&tbl["blocks_copy"]),
        imgs: strings(&tbl["imgs"]),
        bin: tbl["bin"].as_str().unwrap().to_string(),
        folders,
        blocks: Vec::new(),
        items: Vec::new(),
    };

    let content: &[u8] = b"{\"parent\": \"block/cube_all\"}";
    let archive = make_zip(&[("models/foo.json", content)]);
    let sources = cfg
        .folders
        .iter()
        .map(|(name, prefixes)| (name.clone(), archive.clone(), prefixes.clone()))
        .collect();
    let mut mux = Multiplexer::open(sources).unwrap();

    let plan = copy_plan(&cfg);
    assert_eq!(plan.len(), 2);
    assert_eq!(plan[0].0, "banner.png");
    assert_eq!(plan[0].1, "src/main/resources/banner.png");
    assert_eq!(plan[1].0, "foo.json");
    assert_eq!(
        plan[1].1,
        "src/main/resources/assets/testmod/models/block/foo.json"
    );
    assert_eq!(mux.find(&plan[1].0), Some(content.to_vec()));
}

#[test]
fn layout_matches_the_fixed_tree() {
    let l = layout("mymod");
    assert_eq!(l.resources, "src/main/resources");
    assert_eq!(l.models, "src/main/resources/assets/mymod/models/block");
    assert_eq!(l.guis, "src/main/resources/assets/mymod/textures/gui");
    assert_eq!(l.blocks, "src/main/resources/assets/mymod/textures/block");
    assert_eq!(l.items, "src/main/resources/assets/mymod/textures/item");
}

#[test]
fn output_path_appends_the_image_extension() {
    assert_eq!(output_path("some/dir", "name"), "some/dir/name.png");
}

#[test]
fn missing_atlas_is_not_found_under_its_file_name() {
    let a = make_zip(&[("foo/other.png", b"content")]);
    let mut mux = Multiplexer::open(vec![("a.zip".to_string(), a, vec!["foo".to_string()])])
        .unwrap();
    let mut mapping = AtlasMapping::new();
    mapping.insert(AtlasPos::parse("00").unwrap(), "origin".to_string());
    assert_eq!(
        fetch_atlas_slices(&mut mux, "missing_atlas", &mapping),
        Err(Error::NotFound("missing_atlas.png".to_string()))
    );
}

#[test]
fn atlas_is_found_decoded_and_sliced_through_the_multiplexer() {
    let mut img = image::RgbaImage::new(256, 256);
    for y in 0..256u32 {
        for x in 0..256u32 {
            img.put_pixel(x, y, image::Rgba([9, (y / 16) as u8, (x / 16) as u8, 255]));
        }
    }
    let mut buf = std::io::Cursor::new(Vec::new());
    img.write_to(&mut buf, image::ImageFormat::Png).unwrap();
    let archive = make_zip(&[("textures/myatlas.png", &buf.into_inner())]);
    let mut mux = Multiplexer::open(vec![(
        "a.zip".to_string(),
        archive,
        vec!["textures".to_string()],
    )])
    .unwrap();
    let mut mapping = AtlasMapping::new();
    mapping.insert(AtlasPos::parse("23").unwrap(), "cell".to_string());
    let slices = fetch_atlas_slices(&mut mux, "myatlas", &mapping).unwrap();
    assert_eq!(slices.len(), 1);
    assert_eq!(slices[0].0, "cell");
    for px in slices[0].1.pixels.chunks(4) {
        assert_eq!(px, [9, 2, 3, 255]);
    }
}
