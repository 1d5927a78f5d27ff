pub mod fps;
pub mod unreal;
