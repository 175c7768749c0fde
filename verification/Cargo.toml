[package]
name = "orbital_render"
version = "0.1.0"
edition = "2021"
publish = false

[dependencies]
rustc-hash = "1.1"
nalgebra = "*"
bacon-sci = "*"
rand = { version = "0.8", features = ["small_rng"] }
trackball = "*"
wasm-bindgen = "0.2"
js-sys = "0.3"
gloo-events = "*"
gloo-render = "*"
console_error_panic_hook = "0.1"
web-sys = { version = "0.3", features = ["WebGl2RenderingContext", "WebGlProgram", "WebGlShader", "WebGlVertexArrayObject", "WebGlUniformLocation", "WebGlFramebuffer", "WebGlTexture", "WebGlBuffer", "WebGlRenderbuffer", "WebGlContextAttributes", "WebGlPowerPreference", "Window", "Document", "Element", "HtmlCanvasElement", "Event", "MouseEvent", "EventTarget"] }
