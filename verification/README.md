# bmi270

A driver for the Bosch BMI270 inertial measurement unit.

The library in `src/` does no input or output. Each method of the driver gives an operation,
which says what it needs from the bus, one request at a time, and goes on with the reply. What
an operation asks and what it yields are stated in contracts that Verus proves.

- `registers`, `readout`, `change`, `bits`: the registers, what reading them means and how
  their fields are changed.
- `operation`, `driver`, `startup`: the operations, the methods of the driver, and bringing up
  the chip with its firmware.
- `compat_embedded_hal`: the transactions that carry registers over SPI and I2C.
- `conversation` and the modules that end in `_laws`: what holds of whole conversations.

The crate in `app/` runs the operations on the asynchronous buses of `embedded-hal-async`. The
firmware is given to it by the caller.
