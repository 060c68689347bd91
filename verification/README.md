# hvisor

The core of a type-1 hypervisor for AArch64 with GICv3: zones, their vCPUs, the per-pCPU
scheduler that lets vCPUs share pCPUs, virtual timers, interrupt injection, the emulated
interrupt controller, traps of guests and hypercalls.  The logic is written in Verus and
proved against its contracts.

## Layout

- `src/` is the verified library.
  - `hypervisor.rs` holds the state that all pCPUs share, its mathematical model
    (`HvView`, and `Sys` together with the registers of one pCPU) and its invariant.
  - `hardware.rs` models a pCPU's system registers and the operations that the library
    asks for.
  - `scheduler.rs`, `vcpu.rs`, `zone.rs`, `event.rs`, `hypercall.rs`, `cpu_data.rs`,
    `memory.rs`, `error.rs` and `keyed.rs` are independent of the architecture.
  - `arch/aarch64/` has the registers and traps, `device/irqchip/gicv3/` the interrupt
    controller and its emulation.
  - `laws/` states what holds across operations: no ready vCPU is lost, no interrupt is
    lost on the way into a guest, a zone that is taken down leaves nothing behind, and
    more.
- `app/` loads and stores registers, performs the operations, waits, and enters guests.
- `tests/` runs the library on concrete values.

## How the pieces meet

The library never touches hardware.  A caller loads the registers of its pCPU into a
`Hardware`, calls a function of the library, writes the registers back and performs the
operations in `Hardware::ops` in order.  Where waiting or a call into firmware comes
between two decisions, the function returns a step that says what to do and which
function to go on with.

What is trusted: the declarations and wrappers in `event.rs` that describe `spin::Mutex`
when it is accessed through an exclusive borrow.
