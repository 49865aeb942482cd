//! Two small line-oriented tools: a command shell that understands `echo`,
//! `ls` and `exit`, and a calculator over two signed integers.
pub mod calculator;
pub mod shell;
pub mod text;
