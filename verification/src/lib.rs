//! A minimal, line-free scripting language for a small register machine:
//! a cursor over the script text, a bank of four integer and four rational
//! registers, a single-axis PID controller, and an opcode dispatcher that
//! executes the script in one left-to-right pass.  Hardware pins are
//! reached through an adapter trait injected at construction.

mod err;
pub mod laws;
mod machine;
mod pid;
mod rat;
mod scan;

pub use err::ErrorKind;
pub use err::RunError;
pub use machine::Angelio;
pub use machine::HardwareAdapter;
pub use machine::HwFault;
pub use machine::PwmRoute;
pub use machine::RegValue;
pub use machine::RunOut;
pub use machine::SimAdapter;
pub use machine::St;
pub use machine::add_regs_spec;
pub use machine::as_rat_spec;
pub use machine::hw_fault_kind;
pub use machine::init_st;
pub use machine::int_reg;
pub use machine::interp;
pub use machine::is_hw_opcode;
pub use machine::is_opcode;
pub use machine::pwm_route;
pub use machine::rat_reg;
pub use machine::read_spec;
pub use machine::reg_name_spec;
pub use machine::store_int_spec;
pub use machine::store_rat_spec;
pub use machine::store_spec;
pub use machine::swap_regs_spec;
pub use pid::PID;
pub use pid::period;
pub use pid::steps_per_unit;
pub use rat::Rat;
pub use rat::fits_i64;
pub use scan::RegId;
pub use scan::digits_val;
pub use scan::frac_len;
pub use scan::get_number;
pub use scan::get_port_number;
pub use scan::get_register_argument;
pub use scan::has_digit;
pub use scan::is_digit;
pub use scan::is_lit_byte;
pub use scan::lemma_lit_end;
pub use scan::lemma_scan_number_ok;
pub use scan::lit_end;
pub use scan::lit_fits;
pub use scan::lit_rat;
pub use scan::lit_valid;
pub use scan::n_dots;
pub use scan::pow10;
pub use scan::scan_number;
pub use scan::scan_port;
pub use scan::scan_reg;
