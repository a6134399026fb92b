//! Wire formats and state logic of a visualizer for a Rocket League simulation: the packets
//! that carry game states and render commands, the bookkeeping around them, the settings file,
//! state setting, the camera, and the reading and choosing of the field's meshes and materials.
pub mod bytes;
pub mod codec;
pub mod game_state;
pub mod rocketsim;
pub mod render;
pub mod renderer;
pub mod udp;
pub mod frame;
pub mod layout;
pub mod time_display;
pub mod morton;
pub mod options;
pub mod state_setting;
pub mod camera;
pub mod cars;
pub mod mesh;
pub mod default_field;
pub mod assets;
pub mod asset_paths;
pub mod field_nodes;
pub mod material;
