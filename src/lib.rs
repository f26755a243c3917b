pub mod fixed;
pub mod circle;
pub mod player;
pub mod lap;
pub mod particles;
pub mod camera;
pub mod sim;
pub mod track;
