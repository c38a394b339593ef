//! Rule engine for a two-player, gravity-fed, four-in-a-row grid game.
//!
//! The board is a fixed grid of cells. Players alternate dropping a piece of
//! their colour into a column; the piece lands on the lowest empty row. A
//! player wins as soon as four of their pieces stand next to each other on a
//! vertical, horizontal or diagonal line.

pub mod cell;
pub mod geometry;
pub mod board;
pub mod theorems;
pub mod turn;
pub mod render;
