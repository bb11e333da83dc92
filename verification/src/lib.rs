pub mod math;
pub mod camara;
pub mod scene_object;
pub mod weld_laws;
