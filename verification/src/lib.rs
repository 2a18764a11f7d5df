//! Game logic of a terminal snake game: movement, collision, the byte
//! format that carries a game to the server and back, and the layout of
//! what is drawn on the screen.
pub mod codec;
pub mod ids;
pub mod point;
pub mod snake;
pub mod game;
pub mod render;
