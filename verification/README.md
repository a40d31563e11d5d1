# rex

ReX typesets mathematics. This crate holds the part of ReX that runs
after layout: layout boxes become scenes of absolute geometry in font
units, and backends turn scenes into output.

- `src/` is the library, verified with Verus:
  - `layout`: the layout boxes that scene construction consumes;
  - `scene`: scenes, their mathematical model, scene construction, and
    the laws that every built scene satisfies (`scene/laws.rs`);
  - `render`: render settings and the typesetter; `render/svg` writes SVG
    documents; `render/auto` chooses between the GPU image and the SVG
    fallback; `render/webgpu` holds the GPU backend's integer parts
    (read-back row alignment and de-padding, the glyph atlas packer, and
    in `render/webgpu/plan` what is drawn for a scene, in which color);
  - `web`: render modes and results of the browser adapter;
  - `static_map`: the key rules of the generated font tables: which
    literals are keys, the literal text written for each, and that no key
    appears twice;
  - `text`: decimal numbers and characters written into strings.
- `app/` holds what works with floating point, futures and WebAssembly:
  the pixel size of SVG documents, the automatic renderer's await, the
  GPU scene preparation, the render use case over its renderer port, and
  the `wasm_bindgen` result type.
- `tests/` exercises the library.
